//! What comes back after a restart, and what an import brings: which Projects
//! and Tabs, under which names, and which runs go on.
use crate::agent_launch::{fallback_line, relay_banner, shell_command, task_title, task_typed};
use crate::hierarchy::{project_at, tabs_of, Project, Win, WorkspaceState};
use crate::import::{
    adopt, bad_tab_name, first_fault, fresh_fault, fresh_import, fresh_projects, fresh_starts,
    import_fault, import_starts, merge_import, merged_projects, missing, new_windows, project_fault,
    rooted_at, staged, ImportError, ImportMode, ImportedProject, ImportedWorkspace, StagedTab,
};
use crate::launch::{resume_line, AgentLaunchSnap, ProviderRules};
use crate::layout::LayoutNode;
use crate::listings::tagged;
use crate::orchestration::{ActiveRun, OrchestrationKind};
use crate::recovery::restored_args;
use crate::restore::{
    id_ceiling, position_in, remembered_position, restored_focus, restored_projects,
    restored_state, restored_windows, revived, snapshot_state, snapshot_windows, ProjectDefinition,
    RestoredTab, WorkspaceDefinition,
};
use crate::run_launch::{chained, launch_title, role_records, run_tab, tab_title, with_run_tab};
use crate::run_recovery::{
    provider_mismatch, providers_of, rejection, role_running, shape_error, DurableRun,
    GuardBounds, LivePane, Recording,
};
use crate::search_path::texts;
use crate::text::{trimmed, utf8_len};
use crate::types::{PaneId, ProjectId, SplitDir};
use vstd::prelude::*;

verus! {

/// A Project can be brought in if it has a name of a sound length, a folder that
/// is there, and Tabs with names of a sound length, one at least and not too
/// many. What is wrong with it is told.
pub proof fn lemma_what_can_be_brought_in(project: ImportedProject, is_dir: bool, i: usize)
    ensures
        ({
            let fault = project_fault(project, is_dir, i);
            let named = trimmed(project.name@).len() > 0 && utf8_len(project.name@) <= 256;
            let there = is_dir && utf8_len(project.root@) <= 4_096;
            let counted = 1 <= project.tabs@.len() <= 256;
            &&& fault == Some(ImportError::ProjectName) <==> !named
            &&& named && !there ==> fault == Some(ImportError::PathUnavailable(i))
            &&& named && there && !counted ==> fault == Some(ImportError::TabCount(i))
            &&& named && there && counted ==> (fault is Some <==> exists|j: int|
                0 <= j < project.tabs@.len() && (#[trigger] project.tabs@[j]).name is Some
                    && utf8_len(project.tabs@[j].name->0@) > 256)
            &&& named && there && counted && fault is Some ==> fault->0 is TabName
            &&& fault is None ==> named && there && counted
        }),
{
    assert(bad_tab_name(project.tabs@) <==> exists|j: int|
        0 <= j < project.tabs@.len() && (#[trigger] project.tabs@[j]).name is Some
            && utf8_len(project.tabs@[j].name->0@) > 256);
}

proof fn lemma_fault_from(
    projects: Seq<ImportedProject>,
    is_dir: Seq<bool>,
    i: int,
    from: int,
)
    requires
        0 <= from <= i < projects.len(),
        project_fault(projects[i], is_dir[i], i as usize) is Some,
        forall|k: int|
            0 <= k < i ==> project_fault(#[trigger] projects[k], is_dir[k], k as usize) is None,
    ensures
        first_fault(projects, is_dir, from) == project_fault(projects[i], is_dir[i], i as usize),
    decreases i - from,
{
    if from < i {
        assert(project_fault(projects[from], is_dir[from], from as usize) is None);
        lemma_fault_from(projects, is_dir, i, from + 1);
    }
}

proof fn lemma_no_fault_from(projects: Seq<ImportedProject>, is_dir: Seq<bool>, from: int)
    requires
        0 <= from,
        forall|k: int|
            0 <= k < projects.len() ==> project_fault(
                #[trigger] projects[k],
                is_dir[k],
                k as usize,
            ) is None,
    ensures
        first_fault(projects, is_dir, from) is None,
    decreases projects.len() - from,
{
    if from < projects.len() {
        assert(project_fault(projects[from], is_dir[from], from as usize) is None);
        lemma_no_fault_from(projects, is_dir, from + 1);
    }
}

/// An import is refused for its first faulty Project, for having none, and for
/// having too many; one without a fault is taken.
pub proof fn lemma_import_refused_for_its_first_fault(
    workspace: ImportedWorkspace,
    is_dir: Seq<bool>,
    i: int,
)
    ensures
        workspace.projects@.len() == 0 ==> import_fault(workspace, is_dir) == Some(
            ImportError::NoProjects,
        ),
        workspace.projects@.len() > 256 ==> import_fault(workspace, is_dir) == Some(
            ImportError::TooManyProjects,
        ),
        0 <= i < workspace.projects@.len() <= 256 && project_fault(
            workspace.projects@[i],
            is_dir[i],
            i as usize,
        ) is Some && (forall|k: int|
            0 <= k < i ==> project_fault(
                #[trigger] workspace.projects@[k],
                is_dir[k],
                k as usize,
            ) is None) ==> import_fault(workspace, is_dir) == project_fault(
            workspace.projects@[i],
            is_dir[i],
            i as usize,
        ),
        0 < workspace.projects@.len() <= 256 && (forall|k: int|
            0 <= k < workspace.projects@.len() ==> project_fault(
                #[trigger] workspace.projects@[k],
                is_dir[k],
                k as usize,
            ) is None) ==> import_fault(workspace, is_dir) is None,
{
    let projects = workspace.projects@;
    if 0 <= i < projects.len() && project_fault(projects[i], is_dir[i], i as usize) is Some && (
    forall|k: int|
        0 <= k < i ==> project_fault(#[trigger] projects[k], is_dir[k], k as usize) is None) {
        lemma_fault_from(projects, is_dir, i, 0);
    }
    if forall|k: int|
        0 <= k < projects.len() ==> project_fault(
            #[trigger] projects[k],
            is_dir[k],
            k as usize,
        ) is None {
        lemma_no_fault_from(projects, is_dir, 0);
    }
}

proof fn lemma_staged_upto(
    projects: Seq<ImportedProject>,
    starts: Seq<usize>,
    n: nat,
    p: int,
    t: int,
)
    requires
        0 <= p < n <= projects.len() <= usize::MAX,
        starts.len() == projects.len(),
        starts[p] <= t < projects[p].tabs@.len() <= usize::MAX,
    ensures
        staged(projects, starts, n).contains(StagedTab { project: p as usize, tab: t as usize }),
    decreases n,
{
    let rest = staged(projects, starts, (n - 1) as nat);
    let out = staged(projects, starts, n);
    let slot = StagedTab { project: p as usize, tab: t as usize };
    if p == n - 1 {
        let j = t - starts[p];
        assert(out[rest.len() + j] == slot);
    } else {
        lemma_staged_upto(projects, starts, (n - 1) as nat, p, t);
        let at = choose|at: int| 0 <= at < rest.len() && rest[at] == slot;
        assert(out[at] == slot);
    }
}

/// Every Tab of an import that is not there yet is opened.
pub proof fn lemma_every_missing_tab_is_opened(
    projects: Seq<ImportedProject>,
    starts: Seq<usize>,
    p: int,
    t: int,
)
    requires
        0 <= p < projects.len() <= usize::MAX,
        starts.len() == projects.len(),
        starts[p] <= t < projects[p].tabs@.len() <= usize::MAX,
    ensures
        staged(projects, starts, projects.len()).contains(
            (StagedTab { project: p as usize, tab: t as usize }),
        ),
        missing(projects[p], starts[p]) == projects[p].tabs@.len() - starts[p],
{
    lemma_staged_upto(projects, starts, projects.len(), p, t);
}

/// Into a fresh Workspace the first Project takes the Tab that is there, and all
/// the others are opened.
pub proof fn lemma_fresh_workspace_has_one_tab(
    s: WorkspaceState,
    projects: Seq<ImportedProject>,
    p: int,
)
    requires
        0 <= p < projects.len(),
    ensures
        p == 0 ==> fresh_starts(projects.len())[p] == 1,
        p > 0 ==> fresh_starts(projects.len())[p] == 0,
        import_starts(s, projects, ImportMode::Fresh) == fresh_starts(projects.len()),
        fresh_fault(s, projects) is None <==> s.projects.len() == 1 && s.windows.len() == 1
            && s.windows[0].layout.panes().len() == 1 && s.projects[0].root@ == projects[0].root@,
        fresh_fault(s, projects) is Some && fresh_fault(s, projects)->0 is WrongRoot ==> s.projects.len() == 1,
{
}

/// A Tab that is brought in holds one Pane, in the Project that it belongs to,
/// under the name that it had.
pub proof fn lemma_tab_brought_in(
    projects: Seq<ImportedProject>,
    owners: Seq<ProjectId>,
    slots: Seq<StagedTab>,
    panes: Seq<PaneId>,
    n: nat,
    k: int,
)
    requires
        0 <= k < n,
    ensures
        new_windows(projects, owners, slots, panes, n).len() == n,
        ({
            let win = new_windows(projects, owners, slots, panes, n)[k];
            let slot = slots[k];
            &&& win.project == owners[slot.project as int]
            &&& win.layout == LayoutNode::Leaf(panes[k])
            &&& win.active == panes[k]
            &&& win.zoomed is None
            &&& win.name == projects[slot.project as int].tabs@[slot.tab as int].name
        }),
{
}

proof fn lemma_fresh_names(s: WorkspaceState, projects: Seq<ImportedProject>, n: nat, p: int)
    requires
        1 <= n <= projects.len(),
        0 <= p < n,
    ensures
        fresh_projects(s, projects, n).len() == n,
        fresh_projects(s, projects, n)[p].name == projects[p].name,
        p > 0 ==> fresh_projects(s, projects, n)[p].root == projects[p].root,
        p == 0 ==> fresh_projects(s, projects, n)[p].root == s.projects[0].root,
        p == 0 ==> fresh_projects(s, projects, n)[p].id == s.projects[0].id,
    decreases n,
{
    if n > 1 {
        if p < n - 1 {
            lemma_fresh_names(s, projects, (n - 1) as nat, p);
        } else {
            lemma_fresh_names(s, projects, (n - 1) as nat, 0);
        }
    }
}

/// The Projects of a fresh import bear the names and the roots that were
/// brought, in their order.
pub proof fn lemma_projects_bear_their_names(s: WorkspaceState, projects: Seq<ImportedProject>, p: int)
    requires
        0 <= p < projects.len(),
        s.projects[0].root@ == projects[0].root@,
    ensures
        fresh_projects(s, projects, projects.len()).len() == projects.len(),
        fresh_projects(s, projects, projects.len())[p].name@ == projects[p].name@,
        fresh_projects(s, projects, projects.len())[p].root@ == projects[p].root@,
{
    lemma_fresh_names(s, projects, projects.len(), p);
}

/// A fresh import keeps the Pane that runs, shows the first Tab of the first
/// Project, and names it.
pub proof fn lemma_fresh_import_keeps_the_pane(
    s: WorkspaceState,
    projects: Seq<ImportedProject>,
    panes: Seq<PaneId>,
)
    requires
        projects.len() > 0,
    ensures
        ({
            let after = fresh_import(s, projects, panes);
            let opened = staged(projects, fresh_starts(projects.len()), projects.len()).len();
            &&& after.active_window == 0
            &&& after.windows.len() == opened + 1
            &&& after.windows[0].layout == s.windows[0].layout
            &&& after.windows[0].active == s.windows[0].active
            &&& after.windows[0].name == projects[0].tabs@[0].name
            &&& after.next_project_id == s.next_project_id + projects.len() - 1
        }),
{
}

/// Merging an import in leaves every Tab and every Project as it was and where
/// it was, with the focus; what is new comes after.
pub proof fn lemma_merge_leaves_what_is_there(
    s: WorkspaceState,
    projects: Seq<ImportedProject>,
    panes: Seq<PaneId>,
    i: int,
)
    requires
        0 <= i < s.windows.len(),
    ensures
        ({
            let after = merge_import(s, projects, panes);
            &&& after.windows.len() >= s.windows.len()
            &&& after.windows[i] == s.windows[i]
            &&& after.active_window == s.active_window
            &&& after.active_project == s.active_project
            &&& after.overview == s.overview
        }),
{
}

/// A Project whose folder is open already is not opened a second time, and one
/// whose folder is not comes last, under its own name and a number of its own.
pub proof fn lemma_project_opened_once(s: WorkspaceState, projects: Seq<ImportedProject>, p: int)
    requires
        0 <= p < projects.len(),
    ensures
        ({
            let known = merged_projects(s, projects, p as nat);
            let after = merged_projects(s, projects, (p + 1) as nat);
            &&& (exists|i: int|
                0 <= i < known.len() && (#[trigger] known[i]).root@ == projects[p].root@) ==> after
                == known
            &&& !(exists|i: int|
                0 <= i < known.len() && (#[trigger] known[i]).root@ == projects[p].root@) ==> {
                &&& after.len() == known.len() + 1
                &&& after.drop_last() == known
                &&& after.last().name == projects[p].name
                &&& after.last().root == projects[p].root
            }
        }),
{
    let known = merged_projects(s, projects, p as nat);
    let root = projects[p].root@;
    if exists|i: int| 0 <= i < known.len() && (#[trigger] known[i]).root@ == root {
        let i = choose|i: int| 0 <= i < known.len() && (#[trigger] known[i]).root@ == root;
        lemma_first_with_root(known, root, i);
        assert(rooted_at(known, root) is Some);
    } else {
        if exists|i: int| crate::import::first_rooted(known, root, i) {
            let i = choose|i: int| crate::import::first_rooted(known, root, i);
            assert(known[i].root@ == root);
        }
        assert(merged_projects(s, projects, (p + 1) as nat).drop_last() =~= known);
    }
}

proof fn lemma_first_with_root(projects: Seq<Project>, root: Seq<char>, i: int)
    requires
        0 <= i < projects.len(),
        projects[i].root@ == root,
    ensures
        exists|j: int| crate::import::first_rooted(projects, root, j),
    decreases i,
{
    if exists|j: int| 0 <= j < i && (#[trigger] projects[j]).root@ == root {
        let j = choose|j: int| 0 <= j < i && (#[trigger] projects[j]).root@ == root;
        lemma_first_with_root(projects, root, j);
    } else {
        assert(crate::import::first_rooted(projects, root, i));
    }
}

/// A Project that had no Pane with its focus takes that of the first Tab that is
/// brought in, and one that had one keeps it.
pub proof fn lemma_first_tab_takes_the_focus(
    projects: Seq<Project>,
    id: ProjectId,
    pane: PaneId,
    i: int,
    j: int,
)
    requires
        project_at(projects, id) == Some(i),
        0 <= i < projects.len(),
        0 <= j < projects.len(),
    ensures
        adopt(projects, id, pane).len() == projects.len(),
        projects[i].active_pane is None ==> adopt(projects, id, pane)[i].active_pane == Some(pane),
        projects[i].active_pane is Some ==> adopt(projects, id, pane) == projects,
        adopt(projects, id, pane)[i].name == projects[i].name,
        j != i ==> adopt(projects, id, pane)[j] == projects[j],
{
}

proof fn lemma_position_from(tabs: Seq<usize>, index: int, k: int, from: int)
    requires
        0 <= from <= k < tabs.len(),
        tabs[k] == index,
        forall|j: int| 0 <= j < k ==> #[trigger] tabs[j] != index,
    ensures
        position_in(tabs, index, from) == Some(k),
    decreases k - from,
{
    if from < k {
        lemma_position_from(tabs, index, k, from + 1);
    }
}

/// Of the active Project the Tab that is shown is the one remembered.
pub proof fn lemma_shown_tab_is_remembered(s: WorkspaceState, project: Project, k: int)
    requires
        project.id == s.active_project,
        0 <= k < tabs_of(s.windows, project.id).len(),
        tabs_of(s.windows, project.id)[k] == s.active_window,
        forall|j: int|
            0 <= j < k ==> #[trigger] tabs_of(s.windows, project.id)[j] != s.active_window,
    ensures
        remembered_position(s, project) == k,
{
    lemma_position_from(tabs_of(s.windows, project.id), s.active_window, k, 0);
}

/// A Tab comes back with its name, its Project and its division.
pub proof fn lemma_tab_comes_back(tabs: Seq<RestoredTab>, i: int)
    requires
        0 <= i < tabs.len(),
    ensures
        restored_windows(tabs).len() == tabs.len(),
        ({
            let win = restored_windows(tabs)[i];
            &&& win.project == tabs[i].project
            &&& win.name == tabs[i].name
            &&& win.layout == tabs[i].layout
            &&& win.active == tabs[i].layout.panes()[0]
            &&& win.zoomed is None
        }),
{
}

/// A Project comes back on the Tab that it was left on, and on its last one
/// where that did not come back.
pub proof fn lemma_project_comes_back_where_it_was(windows: Seq<Win>, d: ProjectDefinition)
    ensures
        ({
            let tabs = tabs_of(windows, d.id);
            let focus = restored_focus(windows, d);
            &&& focus is None <==> tabs.len() == 0
            &&& d.active_tab < tabs.len() ==> focus == Some(
                windows[tabs[d.active_tab as int] as int].active,
            )
            &&& tabs.len() > 0 && d.active_tab >= tabs.len() ==> focus == Some(
                windows[tabs[tabs.len() - 1] as int].active,
            )
        }),
{
}

proof fn lemma_project_back_upto(
    windows: Seq<Win>,
    definitions: Seq<ProjectDefinition>,
    n: nat,
    k: int,
)
    requires
        0 <= k < n <= definitions.len(),
        tabs_of(windows, definitions[k].id).len() > 0,
    ensures
        exists|at: int|
            0 <= at < restored_projects(windows, definitions, n).len() && (
            #[trigger] restored_projects(windows, definitions, n)[at]).id == definitions[k].id
                && restored_projects(windows, definitions, n)[at].name == definitions[k].name
                && restored_projects(windows, definitions, n)[at].root == definitions[k].root,
    decreases n,
{
    let out = restored_projects(windows, definitions, n);
    let rest = restored_projects(windows, definitions, (n - 1) as nat);
    if k == n - 1 {
        assert(out[out.len() - 1].id == definitions[k].id);
    } else {
        lemma_project_back_upto(windows, definitions, (n - 1) as nat, k);
        let at = choose|at: int|
            0 <= at < rest.len() && (#[trigger] rest[at]).id == definitions[k].id && rest[at].name
                == definitions[k].name && rest[at].root == definitions[k].root;
        assert(out[at] == rest[at]);
    }
}

/// Every Project that has a Tab comes back, under its name and its root.
pub proof fn lemma_every_project_comes_back(
    windows: Seq<Win>,
    definitions: Seq<ProjectDefinition>,
    k: int,
)
    requires
        0 <= k < definitions.len(),
        tabs_of(windows, definitions[k].id).len() > 0,
    ensures
        ({
            let out = restored_projects(windows, definitions, definitions.len());
            exists|at: int|
                0 <= at < out.len() && (#[trigger] out[at]).id == definitions[k].id && out[at].name
                    == definitions[k].name && out[at].root == definitions[k].root
        }),
{
    lemma_project_back_upto(windows, definitions, definitions.len(), k);
}

/// The Project that was active is active again where it came back, and else the
/// first one is.
pub proof fn lemma_active_project_comes_back(
    s: WorkspaceState,
    definition: WorkspaceDefinition,
    tabs: Seq<RestoredTab>,
)
    ensures
        ({
            let after = restored_state(s, definition, tabs);
            let back = project_at(after.projects, definition.active_project) is Some;
            &&& after.windows == restored_windows(tabs)
            &&& after.windows.len() > 0 && after.projects.len() > 0 && back ==> after.active_project
                == definition.active_project
            &&& after.windows.len() > 0 && after.projects.len() > 0 && !back
                ==> after.active_project == after.projects[0].id
        }),
{
}

/// The next Project gets a number that none has.
pub proof fn lemma_next_number_is_free(projects: Seq<Project>, floor: int, n: nat, i: int)
    requires
        0 <= i < n <= projects.len(),
    ensures
        projects[i].id.0 < id_ceiling(projects, floor, n),
        floor <= id_ceiling(projects, floor, n),
    decreases n,
{
    if n > 1 {
        if i < n - 1 {
            lemma_next_number_is_free(projects, floor, (n - 1) as nat, i);
        } else {
            lemma_next_number_is_free(projects, floor, (n - 1) as nat, 0);
        }
    } else {
        assert(id_ceiling(projects, floor, 0) == floor);
    }
}

/// A Tab that comes back from a snapshot keeps its name and its Project; the
/// focus stays where it was if that Pane lives, and a zoom only on a live Pane.
pub proof fn lemma_revived_tab_keeps_its_focus(win: Win, live: Seq<PaneId>)
    ensures
        revived(win, live) matches Some(back) ==> {
            &&& back.name == win.name
            &&& back.project == win.project
            &&& back.layout.panes().contains(win.active) ==> back.active == win.active
            &&& !back.layout.panes().contains(win.active) ==> back.active == back.layout.panes()[0]
            &&& back.zoomed is Some ==> win.zoomed == back.zoomed && live.contains(back.zoomed->0)
            &&& win.zoomed is Some && live.contains(win.zoomed->0) ==> back.zoomed == win.zoomed
        },
{
}

/// A snapshot of which no Pane lives gives a Workspace with the one Pane that
/// was opened for it; a Tab is shown again by its place, as far as there are so
/// many.
pub proof fn lemma_snapshot_comes_back(
    s: WorkspaceState,
    saved: Seq<Win>,
    saved_active: int,
    projects: Seq<Project>,
    saved_next: int,
    live: Seq<PaneId>,
    fallback: Option<PaneId>,
)
    requires
        0 <= saved_active,
        snapshot_windows(saved, projects, live, fallback).len() > 0,
    ensures
        ({
            let after = snapshot_state(
                s,
                saved,
                saved_active,
                projects,
                saved_next,
                live,
                fallback,
            );
            let n = after.windows.len();
            &&& after.projects == projects
            &&& saved_active < n ==> after.active_window == saved_active
            &&& saved_active >= n ==> after.active_window == n - 1
            &&& after.active_project == after.windows[after.active_window].project
            &&& crate::restore::revived_tabs(saved, live, saved.len()).len() > 0 ==> after.windows
                == crate::restore::revived_tabs(saved, live, saved.len())
            &&& crate::restore::revived_tabs(saved, live, saved.len()).len() == 0
                && fallback is Some ==> {
                &&& n == 1
                &&& after.windows[0].active == fallback->0
                &&& after.windows[0].layout == LayoutNode::Leaf(fallback->0)
                &&& after.windows[0].name is None
            }
        }),
{
}

/// A run can go on only if it waited for a turn or was paused, within its
/// limits, with a token out, a role in turn, a Pane and a provider for each
/// role, and every one of its Panes back.
pub proof fn lemma_which_runs_go_on(
    run: DurableRun,
    bounds: GuardBounds,
    template_roles: Option<usize>,
    live: Seq<LivePane>,
)
    requires
        shape_error(run, bounds, template_roles, live) is None,
    ensures
        run.state.phase is Awaiting || run.state.phase is Paused,
        run.state.token != 0,
        run.state.cur < run.roles@.len(),
        run.role_panes@.len() == run.roles@.len(),
        run.started@.len() == run.roles@.len(),
        1 <= run.state.max_iterations <= bounds.max_iterations,
        1 <= run.limits.max_iterations <= bounds.max_iterations,
        1 <= run.limits.max_elapsed_seconds <= bounds.max_elapsed_seconds,
        1 <= run.limits.max_active_runs <= bounds.max_active_runs,
        1 <= run.limits.max_role_panes <= bounds.max_role_panes,
        run.role_providers@.len() == 0 || run.role_providers@.len() == run.roles@.len(),
        run.role_providers@.len() == 0 ==> run.agent_id@.len() > 0 && run.agent_cmd@.len() > 0,
        run.kind is Relay ==> run.role_panes@.len() == 2,
        run.kind is Workflow ==> run.template is Some && template_roles is Some && template_roles->0
            == run.role_panes@.len(),
        forall|i: int|
            0 <= i < run.role_providers@.len() ==> (#[trigger] run.role_providers@[i]).id@.len() > 0
                && run.role_providers@[i].command@.len() > 0,
        forall|i: int|
            0 <= i < run.role_panes@.len() ==> crate::run_recovery::live_at(
                live,
                #[trigger] run.role_panes@[i],
                0,
            ) is Some,
{
}

/// A run that is whole goes on: nothing else keeps it from that.
pub proof fn lemma_whole_run_goes_on(
    run: DurableRun,
    bounds: GuardBounds,
    template_roles: Option<usize>,
    live: Seq<LivePane>,
    tokens: Seq<u64>,
)
    requires
        run.state.phase is Awaiting || run.state.phase is Paused,
        run.state.token != 0,
        run.state.cur < run.roles@.len(),
        run.role_panes@.len() == run.roles@.len(),
        run.started@.len() == run.roles@.len(),
        run.role_providers@.len() == run.roles@.len(),
        1 <= run.state.max_iterations <= bounds.max_iterations,
        run.limits.max_iterations == run.state.max_iterations,
        1 <= run.limits.max_elapsed_seconds <= bounds.max_elapsed_seconds,
        1 <= run.limits.max_active_runs <= bounds.max_active_runs,
        1 <= run.limits.max_role_panes <= bounds.max_role_panes,
        run.kind is Relay ==> run.role_panes@.len() == 2,
        run.kind is Workflow ==> run.template is Some && template_roles is Some && template_roles->0
            == run.role_panes@.len(),
        forall|i: int|
            0 <= i < run.role_providers@.len() ==> (#[trigger] run.role_providers@[i]).id@.len() > 0
                && run.role_providers@[i].command@.len() > 0,
        forall|i: int|
            0 <= i < run.role_panes@.len() ==> crate::run_recovery::live_at(
                live,
                #[trigger] run.role_panes@[i],
                0,
            ) is Some,
    ensures
        shape_error(run, bounds, template_roles, live) is None,
        rejection(run, bounds, template_roles, live, tokens) is None <==> !provider_mismatch(
            run,
            live,
        ) && !tokens.contains(run.state.token),
{
}

/// No two runs come back under one token.
pub proof fn lemma_token_comes_back_once(
    run: DurableRun,
    bounds: GuardBounds,
    template_roles: Option<usize>,
    live: Seq<LivePane>,
    tokens: Seq<u64>,
)
    requires
        tokens.contains(run.state.token),
    ensures
        rejection(run, bounds, template_roles, live, tokens) is Some,
{
}

/// A role goes on with its own provider; a record that has one for all gives it
/// to each.
pub proof fn lemma_role_keeps_its_provider(run: DurableRun, i: int)
    requires
        0 <= i < run.roles@.len(),
    ensures
        run.role_providers@.len() == 0 ==> providers_of(run)[i] == (run.agent_id@, run.agent_cmd@),
        run.role_providers@.len() == run.roles@.len() ==> providers_of(run)[i] == (
            run.role_providers@[i].id@,
            run.role_providers@[i].command@,
        ),
{
}

/// What a run is when it comes back: what it was, with its turn where it was.
/// A role counts as started where its own agent runs in its Pane.
pub proof fn lemma_run_comes_back_as_it_was(
    run: DurableRun,
    live: Seq<LivePane>,
    now_ms: u64,
    clock_ms: u64,
    out: ActiveRun,
    i: int,
)
    requires
        crate::run_recovery::revived(run, live, now_ms, clock_ms, out),
        0 <= i < run.role_panes@.len(),
        clock_ms <= u64::MAX - 600_000,
    ensures
        out.kind == run.kind && out.state == run.state && out.task_id == run.task_id,
        out.goal == run.goal && out.roles == run.roles && out.role_panes == run.role_panes,
        out.template == run.template && out.checkpoints == run.checkpoints,
        run.started_at_ms != 0 ==> out.started_at_ms == run.started_at_ms && out.guard_limits
            == run.limits,
        run.started_at_ms == 0 ==> out.started_at_ms == now_ms,
        out.elapsed_guard_triggered == run.elapsed_triggered,
        out.started@[i] <==> role_running(run, live, i),
        out.idle_deadline is None,
        run.state.phase is Paused ==> out.elapsed_deadline is None,
        out.stall_deadline is Some <==> role_running(run, live, run.state.cur as int),
        out.stall_deadline is Some ==> out.stall_deadline->0 == clock_ms + 600_000,
{
}

proof fn lemma_chained_downwards(panes: Seq<PaneId>, n: nat)
    requires
        2 <= n <= panes.len(),
        panes.no_duplicates(),
    ensures
        chained(panes, n) is Split,
        chained(panes, n)->dir is Vertical,
        *chained(panes, n)->first == LayoutNode::Leaf(panes[0]),
    decreases n,
{
    if n == 2 {
        assert(chained(panes, 1) == LayoutNode::Leaf(panes[0]));
    } else {
        lemma_chained_downwards(panes, (n - 1) as nat);
        let top = LayoutNode::Leaf(panes[0]);
        assert(panes[n - 2] != panes[0]);
        assert(top.with_split(panes[n - 2], SplitDir::Vertical, panes[n - 1]) == top);
    }
}

/// The roles of a run stand below one another in their Tab, the first on top.
pub proof fn lemma_roles_stand_below_one_another(panes: Seq<PaneId>)
    requires
        panes.len() >= 2,
        panes.no_duplicates(),
    ensures
        chained(panes, panes.len()) is Split,
        chained(panes, panes.len())->dir is Vertical,
        *chained(panes, panes.len())->first == LayoutNode::Leaf(panes[0]),
        chained(panes, panes.len()).panes() == panes,
{
    lemma_chained_downwards(panes, panes.len());
    crate::run_launch::lemma_role_layout(panes, panes.len());
    assert(panes.take(panes.len() as int) =~= panes);
}

/// The task of a run is filed under its Project.
pub proof fn lemma_run_is_filed_under_its_project(
    kind: OrchestrationKind,
    project: Seq<char>,
    name: Seq<char>,
    goal: Seq<char>,
)
    requires
        forall|k: int| 0 <= k < project.len() ==> #[trigger] project[k] != ':',
        trimmed(project).len() > 0,
    ensures
        tagged(launch_title(kind, project, name, goal)) == Some(trimmed(project)),
{
    reveal_strlit(":");
    reveal_strlit(": workflow ");
    reveal_strlit(": relay: ");
    reveal_strlit(": ");
    reveal_strlit("# project ");
    match kind {
        OrchestrationKind::Workflow => {
            let rest = " workflow "@ + name + ": "@ + trimmed(goal);
            reveal_strlit(" workflow ");
            crate::listing_laws::lemma_title_names_its_project(project, rest);
            assert(launch_title(kind, project, name, goal) =~= "# project "@ + project + ":"@
                + rest);
        },
        OrchestrationKind::Relay => {
            let rest = " relay: "@ + trimmed(goal);
            reveal_strlit(" relay: ");
            crate::listing_laws::lemma_title_names_its_project(project, rest);
            assert(launch_title(kind, project, name, goal) =~= "# project "@ + project + ":"@
                + rest);
        },
    }
}

/// A launch opens a Tab of its own, the last one, and shows it; every other Tab
/// stays as it was.
pub proof fn lemma_run_opens_its_tab(
    s: WorkspaceState,
    project: ProjectId,
    panes: Seq<PaneId>,
    name: String,
    i: int,
)
    requires
        0 <= i < s.windows.len(),
    ensures
        ({
            let after = with_run_tab(s, run_tab(project, panes, name));
            &&& after.windows.len() == s.windows.len() + 1
            &&& after.active_window == s.windows.len()
            &&& after.windows[i] == s.windows[i]
            &&& after.windows.last().project == project
            &&& after.windows.last().name == Some(name)
            &&& after.windows.last().active == panes[0]
            &&& after.windows.last().zoomed is None
        }),
        tab_title(OrchestrationKind::Relay, name@) == "relay"@,
        tab_title(OrchestrationKind::Workflow, name@) == "wf:"@ + name@,
{
}

/// A role is recorded with its name, its Pane and its provider.
pub proof fn lemma_role_is_recorded(run: ActiveRun, n: nat, k: int)
    requires
        0 <= k < n,
    ensures
        role_records(run, n).len() == n,
        role_records(run, n)[k].name == run.roles@[k].name,
        role_records(run, n)[k].pane == run.role_panes@[k],
        role_records(run, n)[k].provider == run.role_providers@[k].id,
    decreases n,
{
    if k < n - 1 {
        lemma_role_is_recorded(run, (n - 1) as nat, k);
    } else if n > 1 {
        lemma_role_is_recorded(run, (n - 1) as nat, 0);
    } else {
        assert(role_records(run, 0).len() == 0);
    }
}

/// A task that is typed in is filed under its Project, and one without words is
/// not filed at all.
pub proof fn lemma_task_is_filed_under_its_project(project: Seq<char>, prompt: Seq<char>)
    requires
        forall|k: int| 0 <= k < project.len() ==> #[trigger] project[k] != ':',
        trimmed(project).len() > 0,
    ensures
        trimmed(prompt).len() == 0 ==> task_title(Some(project), prompt) is None && task_title(
            None,
            prompt,
        ) is None,
        trimmed(prompt).len() > 0 ==> {
            &&& task_title(None, prompt) == Some(trimmed(prompt))
            &&& task_title(Some(project), prompt) is Some
            &&& tagged(task_title(Some(project), prompt)->0) == Some(trimmed(project))
        },
{
    reveal_strlit(":");
    reveal_strlit(": ");
    reveal_strlit(" ");
    reveal_strlit("# project ");
    if trimmed(prompt).len() > 0 {
        let rest = " "@ + trimmed(prompt);
        crate::listing_laws::lemma_title_names_its_project(project, rest);
        assert(task_title(Some(project), prompt)->0 =~= "# project "@ + project + ":"@ + rest);
    }
}

/// What is typed into the new Pane: a relay is announced, an agent that could
/// not be found is named, a prompt without an agent is typed as it is, and an
/// agent that was launched gets nothing.
pub proof fn lemma_what_is_typed(
    relay: bool,
    agent: Option<Seq<char>>,
    prompt: Seq<char>,
    launched: bool,
)
    ensures
        ({
            let typed = task_typed(relay, agent, prompt, launched);
            let falls_back = prompt.len() > 0 && !launched;
            &&& typed.len() == (if relay {
                1int
            } else {
                0
            }) + (if falls_back {
                1int
            } else {
                0
            })
            &&& relay ==> typed[0] == relay_banner()
            &&& falls_back && agent is None ==> typed.last() == prompt + "\n"@
            &&& falls_back && agent is Some ==> typed.last() == "echo 'uniterm: agent "@ + agent->0
                + " not found on PATH'\n"@
        }),
        agent is None ==> fallback_line(agent, prompt) == prompt + "\n"@,
{
}

/// A launched agent leaves the shell in its place when it ends.
pub proof fn lemma_shell_follows_the_agent(line: Seq<char>, program: Seq<char>)
    ensures
        shell_command(line, program).len() == 2,
        shell_command(line, program)[0] == "-c"@,
        shell_command(line, program)[1] == line + "; exec "@ + program,
{
}

proof fn lemma_tokens_upto(all: Recording, n: nat, k: int)
    requires
        0 <= k < n <= all.runs.len(),
        all.back(k),
    ensures
        all.tokens(n).contains(all.runs[k].state.token),
    decreases n,
{
    let had = all.tokens((n - 1) as nat);
    let out = all.tokens(n);
    let token = all.runs[k].state.token;
    if k == n - 1 {
        assert(out[out.len() - 1] == token);
    } else {
        lemma_tokens_upto(all, (n - 1) as nat, k);
        let at = choose|at: int| 0 <= at < had.len() && had[at] == token;
        assert(out[at] == token);
    }
}

/// Of the recorded runs with one token only the first comes back.
pub proof fn lemma_first_of_a_token_comes_back(all: Recording, i: int, j: int)
    requires
        0 <= i < j < all.runs.len(),
        all.runs[i].state.token == all.runs[j].state.token,
        all.back(i),
    ensures
        !all.back(j),
{
    lemma_tokens_upto(all, j as nat, i);
}

/// A human is asked in the Pane of each run that comes back without its agent,
/// once for a Pane, and who was asked before is asked still.
pub proof fn lemma_human_is_asked_once_for_a_pane(all: Recording, n: nat, k: int, pane: PaneId)
    requires
        0 <= k < n <= all.runs.len(),
    ensures
        ({
            let cur = all.runs[k].state.cur as int;
            let asked = all.asked(n);
            &&& all.waiting.is_prefix_of(asked)
            &&& all.back(k) && !role_running(all.runs[k], all.live, cur) ==> asked.contains(
                all.runs[k].role_panes@[cur],
            )
            &&& all.waiting.no_duplicates() ==> asked.no_duplicates()
        }),
    decreases n,
{
    let had = all.asked((n - 1) as nat);
    let asked = all.asked(n);
    let cur = all.runs[k].state.cur as int;
    let here = all.runs[k].role_panes@[cur];
    if n == 1 {
        assert(had == all.waiting);
    } else {
        lemma_human_is_asked_once_for_a_pane(
            all,
            (n - 1) as nat,
            if k < n - 1 {
                k
            } else {
                0
            },
            pane,
        );
    }
    assert(had.is_prefix_of(asked));
    if all.back(k) && !role_running(all.runs[k], all.live, cur) {
        if had.contains(here) {
            let at = choose|at: int| 0 <= at < had.len() && had[at] == here;
            assert(asked[at] == here);
        } else if k == n - 1 {
            assert(asked[asked.len() - 1] == here);
        }
    }
    if all.waiting.no_duplicates() && asked != had {
        let last = all.runs[n - 1].role_panes@[all.runs[n - 1].state.cur as int];
        assert(!had.contains(last));
        assert forall|a: int, b: int| 0 <= a < b < asked.len() implies asked[a] != asked[b] by {
            assert(asked[a] == had[a]);
            if b == had.len() {
                assert(had.contains(had[a]));
            } else {
                assert(asked[b] == had[b]);
            }
        }
    }
}

/// A Pane comes back with the words it was started with, unless an agent ran in
/// it: its session is taken up by the agent's own program, and where that cannot
/// be, a shell without words comes back.
pub proof fn lemma_pane_comes_back_as_it_was_started(
    profile: Option<AgentLaunchSnap>,
    saved: Seq<Seq<char>>,
    program: Seq<char>,
    providers: Seq<ProviderRules>,
)
    ensures
        ({
            let args = restored_args(profile, saved, program, providers);
            &&& profile is None ==> args == saved
            &&& profile matches Some(launch) ==> {
                let line = resume_line(
                    program,
                    launch.provider@,
                    texts(launch.resume_command@),
                    providers,
                );
                &&& line is None ==> args.len() == 0
                &&& line is Some ==> args.len() == 2 && args[0] == "-c"@ && args[1] == line->0
            }
        }),
{
}

} // verus!
