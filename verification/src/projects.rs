//! Operations on Projects and on the order of Tabs and Projects.
use crate::hierarchy::{
    drop_project, has_tab, index_of, known, lemma_activate, lemma_insert_owned,
    lemma_project_at_found, lemma_remember, project_at, remember, tabs_of, unshown, window_of,
    Project, Win, Workspace, WorkspaceState,
};
use crate::tabs::{lemma_close_tabs, lemma_drop_project, lemma_tabs_among, lemma_window_of_found};
use crate::text::{trim, trimmed};
use crate::types::{PaneId, ProjectId};
use vstd::prelude::*;

verus! {

/// Which way the active Tab moves within its Project.
#[derive(Clone, Copy, Debug, PartialEq, Eq, Structural)]
pub enum TabMoveDirection {
    Previous,
    Next,
}

/// Which way a Project moves in the rail.
#[derive(Clone, Copy, Debug, PartialEq, Eq, Structural)]
pub enum ProjectMoveDirection {
    Up,
    Down,
}

impl TabMoveDirection {
    /// The way back.
    pub open spec fn opposite(self) -> TabMoveDirection {
        match self {
            TabMoveDirection::Previous => TabMoveDirection::Next,
            TabMoveDirection::Next => TabMoveDirection::Previous,
        }
    }
}

/// Where a Tab lands when it moves one step among `count`, wrapping around.
pub open spec fn moved_position(count: int, current: int, direction: TabMoveDirection) -> Option<
    int,
> {
    if count < 2 || current >= count {
        None
    } else {
        match direction {
            TabMoveDirection::Previous => if current == 0 {
                Some(count - 1)
            } else {
                Some(current - 1)
            },
            TabMoveDirection::Next => if current == count - 1 {
                Some(0)
            } else {
                Some(current + 1)
            },
        }
    }
}

/// Where a Tab lands when it moves one step among `count`, wrapping around.
/// A lone Tab has nowhere to go.
pub fn tab_move_target(count: usize, current: usize, direction: TabMoveDirection) -> (target: Option<
    usize,
>)
    ensures
        index_of(target) == moved_position(count as int, current as int, direction),
{
    if count < 2 || current >= count {
        return None;
    }
    match direction {
        TabMoveDirection::Previous => if current == 0 {
            Some(count - 1)
        } else {
            Some(current - 1)
        },
        TabMoveDirection::Next => if current == count - 1 {
            Some(0)
        } else {
            Some(current + 1)
        },
    }
}

/// Moving a Tab one way and then back returns it to where it was.
pub proof fn lemma_tab_move_undoes(count: int, current: int, direction: TabMoveDirection)
    requires
        0 <= current < count,
        count >= 2,
    ensures
        moved_position(count, current, direction) matches Some(to) && moved_position(
            count,
            to,
            direction.opposite(),
        ) == Some(current),
{
}

/// `s` with two items exchanged.
pub open spec fn swapped<A>(s: Seq<A>, a: int, b: int) -> Seq<A> {
    s.update(a, s[b]).update(b, s[a])
}

fn swap_items<A>(items: &mut Vec<A>, a: usize, b: usize)
    requires
        a < old(items)@.len(),
        b < old(items)@.len(),
    ensures
        final(items)@ == swapped(old(items)@, a as int, b as int),
{
    if a < b {
        let y = items.remove(b);
        let x = items.remove(a);
        items.insert(a, y);
        items.insert(b, x);
    } else if b < a {
        let x = items.remove(a);
        let y = items.remove(b);
        items.insert(b, x);
        items.insert(a, y);
    }
    assert(items@ =~= swapped(old(items)@, a as int, b as int));
}

/// The position of `index` in a list of indices.
pub open spec fn place_in(tabs: Seq<usize>, index: int, at: int) -> bool {
    0 <= at < tabs.len() && tabs[at] == index
}

/// A reordering of one Project's Tabs: positions in the Tab bar.
#[derive(Clone, Copy, Debug, PartialEq, Eq, Structural)]
pub struct TabMoved {
    pub project: ProjectId,
    pub from: usize,
    pub to: usize,
}

impl WorkspaceState {
    /// The Tab-bar position of the active Tab.
    pub open spec fn active_position(self) -> int {
        choose|at: int| place_in(tabs_of(self.windows, self.active_project), self.active_window, at)
    }

    /// Where the active Tab goes, if it can move.
    pub open spec fn tab_move(self, direction: TabMoveDirection) -> Option<int> {
        moved_position(
            tabs_of(self.windows, self.active_project).len() as int,
            self.active_position(),
            direction,
        )
    }

    /// The state after the active Tab moved one step in its Project.
    pub open spec fn move_tab(self, direction: TabMoveDirection) -> WorkspaceState {
        let tabs = tabs_of(self.windows, self.active_project);
        let to = tabs[self.tab_move(direction)->0] as int;
        WorkspaceState {
            windows: swapped(self.windows, self.active_window, to),
            active_window: to,
            tab_scroll_follow_active: true,
            ..self
        }
    }
}

/// The active Tab of a running Workspace stands in its Project's Tab bar, once.
pub(crate) proof fn lemma_active_position(s: WorkspaceState)
    requires
        s.wf(),
        s.windows.len() <= usize::MAX,
    ensures
        place_in(tabs_of(s.windows, s.active_project), s.active_window, s.active_position()),
        forall|at: int|
            place_in(tabs_of(s.windows, s.active_project), s.active_window, at) ==> at
                == s.active_position(),
{
    let tabs = tabs_of(s.windows, s.active_project);
    lemma_tabs_among(s.windows, s.active_project, s.windows.len());
    assert(s.windows[s.active_window].project == s.active_project);
    let at = choose|at: int| 0 <= at < tabs.len() && #[trigger] tabs[at] == s.active_window;
    assert(place_in(tabs, s.active_window, at));
    assert forall|a: int, b: int|
        place_in(tabs, s.active_window, a) && place_in(tabs, s.active_window, b) implies a == b by {
        if a < b {
            assert(tabs[a] < tabs[b]);
        } else if b < a {
            assert(tabs[b] < tabs[a]);
        }
    }
}

/// Exchanging two Tabs of one Project keeps the invariant and the same Tab
/// active, and each Project's Tabs keep their places in the Tab bar.
proof fn lemma_swap_wf(s: WorkspaceState, to: int)
    requires
        s.wf(),
        0 <= to < s.windows.len(),
        s.windows[to].project == s.active_project,
    ensures
        (WorkspaceState {
            windows: swapped(s.windows, s.active_window, to),
            active_window: to,
            tab_scroll_follow_active: true,
            ..s
        }).wf(),
        s.all_open() ==> (WorkspaceState {
            windows: swapped(s.windows, s.active_window, to),
            active_window: to,
            tab_scroll_follow_active: true,
            ..s
        }).all_open(),
{
    let from = s.active_window;
    let windows = swapped(s.windows, from, to);
    let back = |i: int|
        if i == from {
            to
        } else if i == to {
            from
        } else {
            i
        };
    assert forall|i: int| 0 <= i < windows.len() implies #[trigger] windows[i] == s.windows[back(
        i,
    )] by {}
    assert forall|i: int| 0 <= i < windows.len() implies (#[trigger] windows[i]).wf() && known(
        s.projects,
        windows[i].project,
    ) by {
        assert(s.windows[back(i)].wf());
    }
    assert forall|i: int, j: int, pane: PaneId|
        0 <= i < windows.len() && 0 <= j < windows.len() && #[trigger] windows[i].shows(pane)
            && #[trigger] windows[j].shows(pane) implies i == j by {
        assert(s.windows[back(i)].shows(pane) && s.windows[back(j)].shows(pane));
    }
    if s.all_open() {
        assert forall|i: int| 0 <= i < s.projects.len() implies has_tab(
            windows,
            (#[trigger] s.projects[i]).id,
        ) by {
            assert(has_tab(s.windows, s.projects[i].id));
            let k = choose|k: int|
                0 <= k < s.windows.len() && (#[trigger] s.windows[k]).project == s.projects[i].id;
            assert(windows[back(k)].project == s.projects[i].id);
        }
    }
}

impl Workspace {
    /// Reorder the active Tab within its Project; what moved, if anything could.
    pub fn move_active_tab(&mut self, direction: TabMoveDirection) -> (moved: Option<TabMoved>)
        requires
            old(self)@.wf(),
        ensures
            moved is Some <==> tabs_of(old(self)@.windows, old(self)@.active_project).len() >= 2,
            moved is None ==> final(self)@ == old(self)@,
            moved matches Some(m) ==> {
                &&& m.project == old(self)@.active_project
                &&& m.from == old(self)@.active_position()
                &&& Some(m.to as int) == old(self)@.tab_move(direction)
                &&& final(self)@ == old(self)@.move_tab(direction)
            },
            final(self)@.wf(),
            old(self)@.all_open() ==> final(self)@.all_open(),
            final(self)@.windows[final(self)@.active_window]
                == old(self)@.windows[old(self)@.active_window],
    {
        let ghost s = self@;
        proof {
            assert(self.windows.len() <= usize::MAX);
            lemma_active_position(s);
            lemma_tabs_among(s.windows, s.active_project, s.windows.len());
        }
        let tabs = self.project_window_indices(self.active_project);
        if tabs.len() < 2 {
            return None;
        }
        let mut from: usize = 0;
        while tabs[from] != self.active_window
            invariant
                self@ == s,
                s.wf(),
                tabs@ == tabs_of(s.windows, s.active_project),
                from < tabs@.len(),
                from <= s.active_position(),
                place_in(tabs@, s.active_window, s.active_position()),
            decreases tabs@.len() - from,
        {
            assert(from < tabs.len());
            from += 1;
        }
        assert(place_in(tabs@, s.active_window, from as int));
        let Some(to) = tab_move_target(tabs.len(), from, direction) else {
            return None;
        };
        let target: usize = tabs[to];
        proof {
            lemma_swap_wf(s, target as int);
        }
        swap_items(&mut self.windows, tabs[from], target);
        self.active_window = target;
        self.tab_scroll_follow_active = true;
        Some(TabMoved { project: self.active_project, from, to })
    }
}

/// `tabs_of` depends only on which Project each Tab belongs to.
proof fn lemma_tabs_same(a: Seq<Win>, b: Seq<Win>, project: ProjectId, n: nat)
    requires
        n <= a.len(),
        n <= b.len(),
        forall|i: int| 0 <= i < n ==> (#[trigger] a[i]).project == (#[trigger] b[i]).project,
    ensures
        crate::hierarchy::tabs_among(a, project, n) == crate::hierarchy::tabs_among(b, project, n),
    decreases n,
{
    if n > 0 {
        lemma_tabs_same(a, b, project, (n - 1) as nat);
        assert(a[n - 1].project == b[n - 1].project);
    }
}

/// Moving the active Tab one way and then back restores every Tab to its place.
pub proof fn lemma_move_tab_undoes(s: WorkspaceState, direction: TabMoveDirection)
    requires
        s.wf(),
        s.windows.len() <= usize::MAX,
        tabs_of(s.windows, s.active_project).len() >= 2,
    ensures
        s.move_tab(direction).move_tab(direction.opposite()).windows == s.windows,
        s.move_tab(direction).move_tab(direction.opposite()).active_window == s.active_window,
{
    let tabs = tabs_of(s.windows, s.active_project);
    lemma_active_position(s);
    lemma_tabs_among(s.windows, s.active_project, s.windows.len());
    lemma_tab_move_undoes(tabs.len() as int, s.active_position(), direction);
    let at = s.tab_move(direction)->0;
    let to = tabs[at] as int;
    let t = s.move_tab(direction);
    lemma_swap_wf(s, to);
    assert(t.windows.len() == s.windows.len());
    assert forall|i: int| 0 <= i < s.windows.len() implies (#[trigger] s.windows[i]).project == (
    #[trigger] t.windows[i]).project by {}
    lemma_tabs_same(s.windows, t.windows, s.active_project, s.windows.len());
    assert(tabs_of(t.windows, t.active_project) == tabs);
    assert(place_in(tabs, t.active_window, at));
    lemma_active_position(t);
    assert(t.active_position() == at);
    assert(t.move_tab(direction.opposite()).windows =~= s.windows);
}

/// The first of `tabs` that shows `pane`.
pub open spec fn tab_showing(windows: Seq<Win>, tabs: Seq<usize>, pane: PaneId) -> Option<usize>
    decreases tabs.len(),
{
    if tabs.len() == 0 {
        None
    } else if windows[tabs[0] as int].shows(pane) {
        Some(tabs[0])
    } else {
        tab_showing(windows, tabs.drop_first(), pane)
    }
}

pub(crate) proof fn lemma_tab_showing(windows: Seq<Win>, tabs: Seq<usize>, pane: PaneId)
    ensures
        tab_showing(windows, tabs, pane) matches Some(i) ==> tabs.contains(i)
            && windows[i as int].shows(pane),
    decreases tabs.len(),
{
    if tabs.len() > 0 {
        if windows[tabs[0] as int].shows(pane) {
            assert(tabs.contains(tabs[0]));
        } else {
            let rest = tabs.drop_first();
            lemma_tab_showing(windows, rest, pane);
            if let Some(i) = tab_showing(windows, rest, pane) {
                let k = choose|k: int| 0 <= k < rest.len() && rest[k] == i;
                assert(tabs[k + 1] == i);
            }
        }
    }
}

impl WorkspaceState {
    /// The Tab that a switch to `project` shows: the one with its remembered
    /// Pane, else its first.
    pub open spec fn entry_tab(self, project: ProjectId) -> Option<usize> {
        let tabs = tabs_of(self.windows, project);
        let preferred = match project_at(self.projects, project) {
            Some(i) => self.projects[i].active_pane,
            None => None,
        };
        let remembered = match preferred {
            Some(pane) => tab_showing(self.windows, tabs, pane),
            None => None,
        };
        match remembered {
            Some(index) => Some(index),
            None => if tabs.len() > 0 {
                Some(tabs[0])
            } else {
                None
            },
        }
    }

    /// The state after a switch to `project`, if it is another one with a Tab.
    pub open spec fn switch_to(self, project: ProjectId) -> WorkspaceState {
        match self.entry_tab(project) {
            Some(index) if project != self.active_project => WorkspaceState {
                overview: None,
                ..self.activate(index as int)
            },
            _ => self,
        }
    }

    /// The state after a new Project opened with one Tab.
    pub open spec fn add_project(self, name: String, root: String, pane: PaneId) -> WorkspaceState {
        let id = ProjectId(self.next_project_id as u64);
        (WorkspaceState {
            projects: self.projects.push(Project { id, name, root, active_pane: Some(pane) }),
            windows: self.windows.push(Win::single(id, pane, None)),
            next_project_id: self.next_project_id + 1,
            ..self
        }).activate(self.windows.len() as int)
    }

    /// The position a Project moves to in the rail.
    pub open spec fn project_move(
        self,
        project: ProjectId,
        direction: ProjectMoveDirection,
    ) -> Option<int> {
        match project_at(self.projects, project) {
            Some(from) => match direction {
                ProjectMoveDirection::Up => if from > 0 {
                    Some(from - 1)
                } else {
                    None
                },
                ProjectMoveDirection::Down => if from + 1 < self.projects.len() {
                    Some(from + 1)
                } else {
                    None
                },
            },
            None => None,
        }
    }

    /// The state after a Project moved one step in the rail.
    pub open spec fn move_project(
        self,
        project: ProjectId,
        direction: ProjectMoveDirection,
    ) -> WorkspaceState {
        match self.project_move(project, direction) {
            Some(to) => WorkspaceState {
                projects: swapped(self.projects, project_at(self.projects, project)->0, to),
                ..self
            },
            None => self,
        }
    }
}

proof fn lemma_swap_projects_wf(s: WorkspaceState, from: int, to: int)
    requires
        s.wf(),
        0 <= from < s.projects.len(),
        0 <= to < s.projects.len(),
    ensures
        (WorkspaceState { projects: swapped(s.projects, from, to), ..s }).wf(),
        s.all_open() ==> (WorkspaceState {
            projects: swapped(s.projects, from, to),
            ..s
        }).all_open(),
{
    let projects = swapped(s.projects, from, to);
    let back = |i: int|
        if i == from {
            to
        } else if i == to {
            from
        } else {
            i
        };
    assert forall|i: int| 0 <= i < projects.len() implies #[trigger] projects[i] == s.projects[back(
        i,
    )] by {}
    assert forall|i: int| 0 <= i < projects.len() implies (#[trigger] projects[i]).id.0
        < s.next_project_id && (s.all_open() ==> has_tab(s.windows, projects[i].id)) by {
        assert(s.projects[back(i)].id.0 < s.next_project_id);
    }
    assert forall|i: int, j: int| 0 <= i < j < projects.len() implies (#[trigger] projects[i]).id
        != (#[trigger] projects[j]).id by {
        let a = back(i);
        let b = back(j);
        if a < b {
            assert(s.projects[a].id != s.projects[b].id);
        } else {
            assert(s.projects[b].id != s.projects[a].id);
        }
    }
    assert forall|i: int| 0 <= i < s.windows.len() implies known(
        projects,
        (#[trigger] s.windows[i]).project,
    ) by {
        let id = s.windows[i].project;
        assert(known(s.projects, id));
        let k = choose|k: int| 0 <= k < s.projects.len() && (#[trigger] s.projects[k]).id == id;
        assert(projects[back(k)].id == id);
    }
}

/// Moving a Project one way and then back restores the rail.
pub proof fn lemma_move_project_undoes(s: WorkspaceState, project: ProjectId)
    requires
        s.wf(),
    ensures
        s.project_move(project, ProjectMoveDirection::Up) is Some ==> s.move_project(
            project,
            ProjectMoveDirection::Up,
        ).move_project(project, ProjectMoveDirection::Down) == s,
        s.project_move(project, ProjectMoveDirection::Down) is Some ==> s.move_project(
            project,
            ProjectMoveDirection::Down,
        ).move_project(project, ProjectMoveDirection::Up) == s,
{
    lemma_project_at_found(s.projects, project);
    if let Some(from) = project_at(s.projects, project) {
        if let Some(to) = s.project_move(project, ProjectMoveDirection::Up) {
            let t = s.move_project(project, ProjectMoveDirection::Up);
            assert(crate::hierarchy::first_project(t.projects, project, to));
            crate::hierarchy::lemma_project_at(t.projects, project, to);
            assert(t.move_project(project, ProjectMoveDirection::Down).projects =~= s.projects);
        }
        if let Some(to) = s.project_move(project, ProjectMoveDirection::Down) {
            let t = s.move_project(project, ProjectMoveDirection::Down);
            lemma_swap_projects_wf(s, from, to);
            assert forall|j: int| 0 <= j < to implies (#[trigger] t.projects[j]).id != project by {
                if j == from {
                    assert(s.projects[to].id != s.projects[from].id);
                }
            }
            assert(crate::hierarchy::first_project(t.projects, project, to));
            crate::hierarchy::lemma_project_at(t.projects, project, to);
            assert(t.move_project(project, ProjectMoveDirection::Up).projects =~= s.projects);
        }
    }
}

impl Workspace {
    fn tab_showing(&self, tabs: &Vec<usize>, pane: PaneId) -> (found: Option<usize>)
        requires
            forall|i: int| 0 <= i < tabs@.len() ==> (#[trigger] tabs@[i]) < self@.windows.len(),
        ensures
            found == tab_showing(self@.windows, tabs@, pane),
    {
        let mut i: usize = 0;
        assert(tabs@.skip(0) =~= tabs@);
        while i < tabs.len()
            invariant
                i <= tabs@.len(),
                forall|i: int| 0 <= i < tabs@.len() ==> (#[trigger] tabs@[i]) < self@.windows.len(),
                tab_showing(self@.windows, tabs@, pane) == tab_showing(
                    self@.windows,
                    tabs@.skip(i as int),
                    pane,
                ),
            decreases tabs@.len() - i,
        {
            assert(tabs@.skip(i as int).drop_first() =~= tabs@.skip(i + 1));
            if self.windows[tabs[i]].layout.contains_pane(pane) {
                return Some(tabs[i]);
            }
            i += 1;
        }
        None
    }

    /// Switch to another Project, to the Tab it was left at. Whether anything
    /// was switched.
    pub fn switch_project(&mut self, project: ProjectId) -> (switched: bool)
        requires
            old(self)@.wf(),
        ensures
            final(self)@ == old(self)@.switch_to(project),
            switched == (project != old(self)@.active_project && has_tab(
                old(self)@.windows,
                project,
            )),
            final(self)@.wf(),
            old(self)@.all_open() ==> final(self)@.all_open(),
            switched ==> final(self)@.active_project == project,
    {
        let ghost s = self@;
        if project == self.active_project {
            return false;
        }
        proof {
            assert(self.windows.len() <= usize::MAX);
            lemma_tabs_among(s.windows, project, s.windows.len());
            lemma_project_at_found(s.projects, project);
        }
        let tabs = self.project_window_indices(project);
        let preferred: Option<PaneId> = match self.project_position(project) {
            Some(i) => self.projects[i].active_pane,
            None => None,
        };
        let remembered: Option<usize> = match preferred {
            Some(pane) => {
                proof {
                    lemma_tab_showing(s.windows, tabs@, pane);
                }
                self.tab_showing(&tabs, pane)
            },
            None => None,
        };
        let index: usize = match remembered {
            Some(index) => index,
            None => {
                if tabs.len() == 0 {
                    proof {
                        if has_tab(s.windows, project) {
                            let k = choose|k: int|
                                0 <= k < s.windows.len() && (#[trigger] s.windows[k]).project
                                    == project;
                            assert(exists|a: int|
                                0 <= a < tabs@.len() && #[trigger] tabs@[a] == k);
                        }
                    }
                    return false;
                }
                tabs[0]
            },
        };
        proof {
            assert(tabs@.contains(index));
            let a = choose|a: int| 0 <= a < tabs@.len() && tabs@[a] == index;
            assert(s.windows[tabs@[a] as int].project == project);
            lemma_activate(s, index as int);
        }
        self.activate_window(index);
        self.overview = None;
        proof {
            let t = s.activate(index as int);
            assert(self@.wf());
        }
        true
    }

    /// Open a new Project whose first Tab shows `pane`; its id.
    pub fn add_project(&mut self, name: String, root: String, pane: PaneId) -> (id: ProjectId)
        requires
            old(self)@.wf(),
            unshown(old(self)@.windows, pane),
            old(self)@.next_project_id < u64::MAX,
        ensures
            final(self)@ == old(self)@.add_project(name, root, pane),
            id.0 == old(self)@.next_project_id,
            final(self)@.wf(),
            old(self)@.all_open() ==> final(self)@.all_open(),
            final(self)@.active_project == id,
    {
        let ghost s = self@;
        let id = ProjectId(self.next_project_id);
        self.next_project_id += 1;
        self.projects.push(Project { id, name, root, active_pane: Some(pane) });
        self.windows.push(Win::new_single(id, pane, None));
        proof {
            let win = Win::single(id, pane, None);
            lemma_insert_owned(s.windows, s.windows.len() as int, win, pane);
            assert(s.windows.insert(s.windows.len() as int, win) =~= s.windows.push(win));
            assert forall|i: int| 0 <= i < self@.windows.len() implies known(
                self@.projects,
                (#[trigger] self@.windows[i]).project,
            ) by {
                if i < s.windows.len() {
                    let p = s.windows[i].project;
                    assert(known(s.projects, p));
                    let k = choose|k: int|
                        0 <= k < s.projects.len() && (#[trigger] s.projects[k]).id == p;
                    assert(self@.projects[k].id == p);
                } else {
                    assert(self@.projects[s.projects.len() as int].id == id);
                }
            }
            if s.all_open() {
                assert forall|i: int| 0 <= i < self@.projects.len() implies has_tab(
                    self@.windows,
                    (#[trigger] self@.projects[i]).id,
                ) by {
                    if i < s.projects.len() {
                        let p = s.projects[i].id;
                        assert(has_tab(s.windows, p));
                        let k = choose|k: int|
                            0 <= k < s.windows.len() && (#[trigger] s.windows[k]).project == p;
                        assert(self@.windows[k].project == p);
                    } else {
                        assert(self@.windows[s.windows.len() as int].project == id);
                    }
                }
            }
            assert(self@.owned_wf());
            lemma_activate(self@, s.windows.len() as int);
        }
        let index: usize = self.windows.len() - 1;
        self.activate_window(index);
        id
    }

    /// Give a Project a new name. A blank name, or an unknown Project, changes
    /// nothing; whether the name was stored.
    pub fn rename_project(&mut self, project: ProjectId, name: &str) -> (renamed: bool)
        requires
            old(self)@.wf(),
        ensures
            renamed == (trimmed(name@).len() > 0 && known(old(self)@.projects, project)),
            !renamed ==> final(self)@ == old(self)@,
            renamed ==> exists|text: String| #[trigger]
                text@ == trimmed(name@) && {
                    let i = project_at(old(self)@.projects, project)->0;
                    final(self)@ == (WorkspaceState {
                        projects: old(self)@.projects.update(
                            i,
                            (Project { name: text, ..old(self)@.projects[i] }),
                        ),
                        ..old(self)@
                    })
                },
            final(self)@.wf(),
            old(self)@.all_open() ==> final(self)@.all_open(),
    {
        let ghost s = self@;
        proof {
            lemma_project_at_found(s.projects, project);
        }
        let text = trim(name);
        if text.as_str().is_empty() {
            return false;
        }
        let Some(index) = self.project_position(project) else {
            return false;
        };
        let ghost kept = text;
        self.projects[index].name = text;
        proof {
            assert(kept@ == trimmed(name@));
            assert(self@.projects =~= s.projects.update(
                index as int,
                Project { name: kept, ..s.projects[index as int] },
            ));
            assert forall|i: int| 0 <= i < s.projects.len() implies (#[trigger] self@.projects[i]).id
                == s.projects[i].id by {}
            assert forall|i: int| 0 <= i < s.windows.len() implies known(
                self@.projects,
                (#[trigger] s.windows[i]).project,
            ) by {
                let p = s.windows[i].project;
                assert(known(s.projects, p));
                let k = choose|k: int|
                    0 <= k < s.projects.len() && (#[trigger] s.projects[k]).id == p;
                assert(self@.projects[k].id == p);
            }
            if s.all_open() {
                assert forall|i: int| 0 <= i < self@.projects.len() implies has_tab(
                    self@.windows,
                    (#[trigger] self@.projects[i]).id,
                ) && self@.projects[i].id.0 < self@.next_project_id by {
                    assert(has_tab(s.windows, s.projects[i].id));
                }
            }
        }
        true
    }

    /// Move a Project one step in the rail; whether it could.
    pub fn move_project(&mut self, project: ProjectId, direction: ProjectMoveDirection) -> (moved:
        bool)
        requires
            old(self)@.wf(),
        ensures
            moved == (old(self)@.project_move(project, direction) is Some),
            final(self)@ == old(self)@.move_project(project, direction),
            final(self)@.wf(),
            old(self)@.all_open() ==> final(self)@.all_open(),
    {
        let ghost s = self@;
        proof {
            lemma_project_at_found(s.projects, project);
        }
        let Some(from) = self.project_position(project) else {
            return false;
        };
        assert(from < self.projects.len());
        let to: usize = match direction {
            ProjectMoveDirection::Up => {
                if from == 0 {
                    return false;
                }
                from - 1
            },
            ProjectMoveDirection::Down => {
                if from + 1 >= self.projects.len() {
                    return false;
                }
                from + 1
            },
        };
        proof {
            lemma_swap_projects_wf(s, from as int, to as int);
        }
        swap_items(&mut self.projects, from, to);
        true
    }
}

/// The Tabs of other Projects, in order.
pub open spec fn other_tabs(windows: Seq<Win>, project: ProjectId) -> Seq<Win>
    decreases windows.len(),
{
    if windows.len() == 0 {
        windows
    } else if windows.last().project == project {
        other_tabs(windows.drop_last(), project)
    } else {
        other_tabs(windows.drop_last(), project).push(windows.last())
    }
}

/// The Panes of a Project's Tabs, in order.
pub open spec fn project_panes(windows: Seq<Win>, project: ProjectId) -> Seq<PaneId>
    decreases windows.len(),
{
    if windows.len() == 0 {
        Seq::empty()
    } else if windows.last().project == project {
        project_panes(windows.drop_last(), project) + windows.last().layout.panes()
    } else {
        project_panes(windows.drop_last(), project)
    }
}

proof fn lemma_other_tabs(windows: Seq<Win>, project: ProjectId)
    ensures
        forall|i: int|
            0 <= i < other_tabs(windows, project).len() ==> (#[trigger] other_tabs(
                windows,
                project,
            )[i]).project != project && windows.contains(other_tabs(windows, project)[i]),
        forall|i: int|
            0 <= i < windows.len() && (#[trigger] windows[i]).project != project ==> other_tabs(
                windows,
                project,
            ).contains(windows[i]),
        !has_tab(windows, project) ==> other_tabs(windows, project) =~= windows,
    decreases windows.len(),
{
    if windows.len() > 0 {
        let head = windows.drop_last();
        let rest = other_tabs(head, project);
        let out = other_tabs(windows, project);
        lemma_other_tabs(head, project);
        assert forall|i: int| 0 <= i < out.len() implies (#[trigger] out[i]).project != project
            && windows.contains(out[i]) by {
            if i < rest.len() {
                assert(head.contains(rest[i]));
                let k = choose|k: int| 0 <= k < head.len() && head[k] == rest[i];
                assert(windows[k] == out[i]);
            } else {
                assert(windows[windows.len() - 1] == out[i]);
            }
        }
        assert forall|i: int| 0 <= i < windows.len() && (#[trigger] windows[i]).project
            != project implies out.contains(windows[i]) by {
            if i < head.len() {
                assert(head[i].project != project);
                assert(rest.contains(head[i]));
                let k = choose|k: int| 0 <= k < rest.len() && rest[k] == head[i];
                assert(out[k] == windows[i]);
            } else {
                assert(out[out.len() - 1] == windows[i]);
            }
        }
        if !has_tab(windows, project) {
            assert(windows[windows.len() - 1].project != project);
            assert(!has_tab(head, project)) by {
                if has_tab(head, project) {
                    let k = choose|k: int|
                        0 <= k < head.len() && (#[trigger] head[k]).project == project;
                    assert(windows[k].project == project);
                }
            }
            assert(out =~= windows);
        }
    }
}

proof fn lemma_other_tabs_update(windows: Seq<Win>, project: ProjectId, i: int, win: Win)
    requires
        0 <= i < windows.len(),
        windows[i].project == project,
        win.project == project,
    ensures
        other_tabs(windows.update(i, win), project) == other_tabs(windows, project),
    decreases windows.len(),
{
    let out = windows.update(i, win);
    if i == windows.len() - 1 {
        assert(out.drop_last() =~= windows.drop_last());
    } else {
        lemma_other_tabs_update(windows.drop_last(), project, i, win);
        assert(out.drop_last() =~= windows.drop_last().update(i, win));
    }
}

proof fn lemma_other_tabs_remove(windows: Seq<Win>, project: ProjectId, i: int)
    requires
        0 <= i < windows.len(),
        windows[i].project == project,
    ensures
        other_tabs(windows.remove(i), project) == other_tabs(windows, project),
    decreases windows.len(),
{
    let out = windows.remove(i);
    if i == windows.len() - 1 {
        assert(out =~= windows.drop_last());
    } else {
        lemma_other_tabs_remove(windows.drop_last(), project, i);
        assert(out.drop_last() =~= windows.drop_last().remove(i));
        assert(out.last() == windows.last());
    }
}

pub(crate) proof fn lemma_project_panes(windows: Seq<Win>, project: ProjectId)
    ensures
        forall|q: PaneId| #[trigger]
            project_panes(windows, project).contains(q) <==> exists|i: int|
                0 <= i < windows.len() && (#[trigger] windows[i]).project == project
                    && windows[i].shows(q),
    decreases windows.len(),
{
    if windows.len() > 0 {
        let head = windows.drop_last();
        let last = windows.last();
        lemma_project_panes(head, project);
        let rest = project_panes(head, project);
        let out = project_panes(windows, project);
        assert forall|q: PaneId| #[trigger] out.contains(q) <==> exists|i: int|
            0 <= i < windows.len() && (#[trigger] windows[i]).project == project
                && windows[i].shows(q) by {
            if out.contains(q) {
                let k = choose|k: int| 0 <= k < out.len() && out[k] == q;
                if k < rest.len() {
                    assert(rest[k] == q);
                    assert(rest.contains(q));
                    let i = choose|i: int|
                        0 <= i < head.len() && (#[trigger] head[i]).project == project
                            && head[i].shows(q);
                    assert(windows[i].project == project && windows[i].shows(q));
                } else {
                    assert(last.layout.panes()[k - rest.len()] == q);
                    assert(windows[windows.len() - 1].project == project && windows[windows.len()
                        - 1].shows(q));
                }
            }
            if exists|i: int|
                0 <= i < windows.len() && (#[trigger] windows[i]).project == project
                    && windows[i].shows(q) {
                let i = choose|i: int|
                    0 <= i < windows.len() && (#[trigger] windows[i]).project == project
                        && windows[i].shows(q);
                if i < head.len() {
                    assert(head[i].project == project && head[i].shows(q));
                    assert(rest.contains(q));
                    let k = choose|k: int| 0 <= k < rest.len() && rest[k] == q;
                    assert(out[k] == q);
                } else {
                    let k = choose|k: int|
                        0 <= k < last.layout.panes().len() && last.layout.panes()[k] == q;
                    assert(out[rest.len() + k] == q);
                }
            }
        }
    }
}

impl WorkspaceState {
    /// The state after the Panes closed one by one, as long as a Tab is left.
    pub open spec fn close_each(self, panes: Seq<PaneId>) -> WorkspaceState
        decreases panes.len(),
    {
        if panes.len() == 0 || self.windows.len() == 0 {
            self
        } else {
            self.close(panes[0]).close_each(panes.drop_first())
        }
    }

    /// The state once a Project is forgotten and another Project is shown in
    /// its place; its Tabs are still open.
    pub open spec fn disown(self, project: ProjectId) -> WorkspaceState {
        let s = WorkspaceState { projects: drop_project(self.projects, project), ..self };
        if self.active_project == project {
            let tabs = tabs_of(s.windows, s.projects[0].id);
            if tabs.len() > 0 {
                s.activate(tabs[0] as int)
            } else {
                s
            }
        } else {
            s
        }
    }

    /// Whether a Project can be removed: it is there, and not the last one.
    pub open spec fn removable(self, project: ProjectId) -> bool {
        self.projects.len() > 1 && known(self.projects, project)
    }

    /// The state after a Project was removed with its Tabs and Panes.
    pub open spec fn without_project(self, project: ProjectId) -> WorkspaceState {
        self.disown(project).close_each(project_panes(self.windows, project))
    }

    /// What holds while the Tabs of a forgotten Project close: the other Tabs
    /// are those of `s`, and the Projects are the ones that stay.
    spec fn clearing(self, s: WorkspaceState, project: ProjectId) -> bool {
        &&& self.tabs_wf()
        &&& self.windows.len() <= usize::MAX
        &&& other_tabs(self.windows, project) == other_tabs(s.windows, project)
        &&& self.active_project == self.windows[self.active_window].project
        &&& self.next_project_id == s.next_project_id
        &&& self.projects.len() == drop_project(s.projects, project).len()
        &&& forall|i: int|
            0 <= i < self.projects.len() ==> (#[trigger] self.projects[i]).id == drop_project(
                s.projects,
                project,
            )[i].id
    }
}

/// Disowning a Project leaves a state in which its Tabs can close.
proof fn lemma_disown(s: WorkspaceState, project: ProjectId)
    requires
        s.wf(),
        s.removable(project),
        s.windows.len() <= usize::MAX,
    ensures
        s.disown(project).clearing(s, project),
        s.disown(project).windows == s.windows,
{
    let t = WorkspaceState { projects: drop_project(s.projects, project), ..s };
    lemma_drop_project(s.projects, project);
    let out = s.disown(project);
    let tabs = tabs_of(t.windows, t.projects[0].id);
    if s.active_project == project && tabs.len() > 0 {
        let id = t.projects[0].id;
        lemma_tabs_among(t.windows, id, t.windows.len());
        assert(s.windows[tabs[0] as int].project == id);
        let current = t.windows[t.active_window];
        lemma_remember(t.projects, current.project, current.active);
        let left = remember(t.projects, current.project, current.active);
        let tab = t.windows[tabs[0] as int];
        lemma_remember(left, tab.project, tab.active);
        assert forall|i: int| 0 <= i < out.projects.len() implies (#[trigger] out.projects[i]).id
            == t.projects[i].id by {
            assert(remember(left, tab.project, tab.active)[i].id == left[i].id);
        }
    }
}

/// Closing a Pane of the forgotten Project keeps what holds while it closes.
proof fn lemma_clearing_step(t: WorkspaceState, s: WorkspaceState, project: ProjectId, pane: PaneId)
    requires
        s.wf(),
        t.clearing(s, project),
        forall|i: int|
            0 <= i < t.windows.len() && (#[trigger] t.windows[i]).shows(pane)
                ==> t.windows[i].project == project,
    ensures
        t.windows_without(pane).len() > 0 ==> t.close(pane).clearing(s, project),
        t.windows_without(pane).len() == 0 ==> other_tabs(s.windows, project).len() == 0,
        t.emptied_project(pane) is None,
{
    lemma_close_tabs(t, pane);
    lemma_window_of_found(t.windows, pane);
    lemma_drop_project(s.projects, project);
    let rest = t.windows_without(pane);
    assert(project_at(t.projects, project) is None) by {
        lemma_project_at_found(t.projects, project);
        if let Some(i) = project_at(t.projects, project) {
            assert(t.projects[i].id == drop_project(s.projects, project)[i].id);
        }
    }
    match window_of(t.windows, pane) {
        None => {},
        Some(w) => {
            assert(t.windows[w].project == project);
            match t.windows[w].layout.minus(pane) {
                Some(layout) => {
                    lemma_other_tabs_update(
                        t.windows,
                        project,
                        w,
                        t.windows[w].reduced(pane, layout),
                    );
                },
                None => {
                    lemma_other_tabs_remove(t.windows, project, w);
                },
            }
        },
    }
    let out = t.close(pane);
    if rest.len() > 0 {
        let active = rest[t.active_without(pane)];
        lemma_remember(t.projects, active.project, active.active);
        assert forall|i: int| 0 <= i < out.projects.len() implies (#[trigger] out.projects[i]).id
            == drop_project(s.projects, project)[i].id by {
            assert(out.projects[i].id == t.projects[i].id);
        }
    } else {
        assert(other_tabs(rest, project) =~= Seq::<Win>::empty());
    }
}

/// Once no Tab of the forgotten Project is left, the Workspace runs again.
proof fn lemma_cleared(t: WorkspaceState, s: WorkspaceState, project: ProjectId)
    requires
        s.wf(),
        t.clearing(s, project),
        !has_tab(t.windows, project),
    ensures
        t.wf(),
        t.windows == other_tabs(s.windows, project),
        s.all_open() ==> t.all_open(),
{
    lemma_other_tabs(t.windows, project);
    lemma_other_tabs(s.windows, project);
    lemma_drop_project(s.projects, project);
    let kept = drop_project(s.projects, project);
    assert forall|p: ProjectId| #[trigger] known(t.projects, p) == known(kept, p) by {
        if known(t.projects, p) {
            let i = choose|i: int| 0 <= i < t.projects.len() && (#[trigger] t.projects[i]).id == p;
            assert(kept[i].id == p);
        }
        if known(kept, p) {
            let i = choose|i: int| 0 <= i < kept.len() && (#[trigger] kept[i]).id == p;
            assert(t.projects[i].id == p);
        }
    }
    assert forall|i: int, j: int| 0 <= i < j < t.projects.len() implies (#[trigger] t.projects[i]).id
        != (#[trigger] t.projects[j]).id by {
        assert(kept[i].id != kept[j].id);
    }
    assert forall|i: int| 0 <= i < t.windows.len() implies known(
        t.projects,
        (#[trigger] t.windows[i]).project,
    ) by {
        assert(s.windows.contains(t.windows[i]));
        let k = choose|k: int| 0 <= k < s.windows.len() && s.windows[k] == t.windows[i];
        assert(known(s.projects, s.windows[k].project));
        assert(known(kept, t.windows[i].project));
    }
    if s.all_open() {
        assert forall|i: int| 0 <= i < t.projects.len() implies has_tab(
            t.windows,
            (#[trigger] t.projects[i]).id,
        ) && t.projects[i].id.0 < t.next_project_id by {
            let id = t.projects[i].id;
            assert(kept[i].id == id && kept[i].id != project);
            assert(s.projects.contains(kept[i]));
            let m = choose|m: int| 0 <= m < s.projects.len() && s.projects[m] == kept[i];
            assert(has_tab(s.windows, s.projects[m].id));
            let k = choose|k: int| 0 <= k < s.windows.len() && (#[trigger] s.windows[k]).project == id;
            assert(other_tabs(s.windows, project).contains(s.windows[k]));
            let a = choose|a: int| 0 <= a < t.windows.len() && t.windows[a] == s.windows[k];
            assert(t.windows[a].project == id);
        }
    }
}

/// Where every Project has a Tab, removing one of several leaves a Tab.
proof fn lemma_not_last(s: WorkspaceState, project: ProjectId)
    requires
        s.wf(),
        s.all_open(),
        s.removable(project),
    ensures
        other_tabs(s.windows, project).len() > 0,
{
    let i = if s.projects[0].id == project {
        1int
    } else {
        0
    };
    assert(s.projects[i].id != project) by {
        assert(s.projects[0].id != s.projects[1].id);
    }
    assert(has_tab(s.windows, s.projects[i].id));
    let k = choose|k: int|
        0 <= k < s.windows.len() && (#[trigger] s.windows[k]).project == s.projects[i].id;
    lemma_other_tabs(s.windows, project);
    assert(other_tabs(s.windows, project).contains(s.windows[k]));
}

/// A Pane shown by a Tab of one Project is shown by no Tab of another.
proof fn lemma_project_pane_owner(s: WorkspaceState, project: ProjectId, pane: PaneId)
    requires
        s.tabs_wf(),
        project_panes(s.windows, project).contains(pane),
    ensures
        forall|i: int|
            0 <= i < s.windows.len() && (#[trigger] s.windows[i]).shows(pane)
                ==> s.windows[i].project == project,
{
    lemma_project_panes(s.windows, project);
    let k = choose|k: int|
        0 <= k < s.windows.len() && (#[trigger] s.windows[k]).project == project
            && s.windows[k].shows(pane);
    assert forall|i: int| 0 <= i < s.windows.len() && (#[trigger] s.windows[i]).shows(
        pane,
    ) implies s.windows[i].project == project by {
        assert(s.windows[k].shows(pane));
    }
}

/// What removing a Project did.
#[derive(Debug)]
pub struct RemovedProject {
    /// The Panes that closed with it, in the order they closed.
    pub panes: Vec<PaneId>,
    /// No Tab is left, so the server stops.
    pub stopped: bool,
}

/// Closing Panes one by one shows nothing that was not shown, and none of them
/// any more.
proof fn lemma_close_each_shows(s: WorkspaceState, panes: Seq<PaneId>)
    requires
        s.windows.len() <= usize::MAX,
        s.windows.len() > 0 ==> s.tabs_wf(),
    ensures
        forall|q: PaneId|
            unshown(s.windows, q) ==> #[trigger] unshown(s.close_each(panes).windows, q),
        forall|k: int|
            0 <= k < panes.len() ==> unshown(s.close_each(panes).windows, #[trigger] panes[k]),
    decreases panes.len(),
{
    if panes.len() > 0 && s.windows.len() > 0 {
        crate::tabs::lemma_close_tabs(s, panes[0]);
        let next = s.close(panes[0]);
        let rest = panes.drop_first();
        assert(next.windows == s.windows_without(panes[0]));
        lemma_close_each_shows(next, rest);
        assert forall|q: PaneId| unshown(s.windows, q) implies #[trigger] unshown(
            s.close_each(panes).windows,
            q,
        ) by {
            assert(unshown(next.windows, q));
        }
        assert forall|k: int| 0 <= k < panes.len() implies unshown(
            s.close_each(panes).windows,
            #[trigger] panes[k],
        ) by {
            if k > 0 {
                assert(rest[k - 1] == panes[k]);
            } else {
                assert(unshown(next.windows, panes[0]));
            }
        }
    }
}

/// Removing a Project shows nothing that was not shown, and none of its Panes
/// any more.
pub(crate) proof fn lemma_removed_unshown(s: WorkspaceState, project: ProjectId)
    requires
        s.wf(),
        s.removable(project),
        s.windows.len() <= usize::MAX,
    ensures
        forall|q: PaneId|
            unshown(s.windows, q) ==> #[trigger] unshown(s.without_project(project).windows, q),
        forall|k: int|
            0 <= k < project_panes(s.windows, project).len() ==> unshown(
                s.without_project(project).windows,
                #[trigger] project_panes(s.windows, project)[k],
            ),
{
    lemma_disown(s, project);
    lemma_close_each_shows(s.disown(project), project_panes(s.windows, project));
}

impl Workspace {
    fn collect_project_panes(&self, project: ProjectId) -> (panes: Vec<PaneId>)
        ensures
            panes@ == project_panes(self@.windows, project),
    {
        let mut panes: Vec<PaneId> = Vec::new();
        let mut i: usize = 0;
        assert(self@.windows.take(0) =~= Seq::<Win>::empty());
        while i < self.windows.len()
            invariant
                i <= self.windows@.len(),
                panes@ == project_panes(self.windows@.take(i as int), project),
            decreases self.windows@.len() - i,
        {
            assert(self.windows@.take(i + 1).drop_last() =~= self.windows@.take(i as int));
            if self.windows[i].project == project {
                let mut ids = self.windows[i].layout.pane_ids();
                panes.append(&mut ids);
            }
            i += 1;
        }
        assert(self.windows@.take(i as int) =~= self.windows@);
        panes
    }

    /// Remove a Project with its Tabs and Panes. The last Project stays.
    pub fn remove_project(&mut self, project: ProjectId) -> (removed: Option<RemovedProject>)
        requires
            old(self)@.wf(),
        ensures
            removed is Some <==> old(self)@.removable(project),
            removed is None ==> final(self)@ == old(self)@,
            removed matches Some(r) ==> {
                &&& r.panes@ == project_panes(old(self)@.windows, project)
                &&& final(self)@ == old(self)@.without_project(project)
                &&& final(self)@.windows == other_tabs(old(self)@.windows, project)
                &&& r.stopped == (final(self)@.windows.len() == 0)
                &&& !r.stopped ==> final(self)@.wf() && !known(final(self)@.projects, project)
                &&& old(self)@.all_open() ==> !r.stopped && final(self)@.all_open()
            },
    {
        let ghost s = self@;
        proof {
            lemma_project_at_found(s.projects, project);
        }
        if self.projects.len() <= 1 || self.project_position(project).is_none() {
            return None;
        }
        proof {
            assert(self.windows.len() <= usize::MAX);
            lemma_disown(s, project);
            lemma_drop_project(s.projects, project);
        }
        let panes = self.collect_project_panes(project);
        let was_active = self.active_project == project;
        self.forget_project(project);
        if was_active {
            let replacement = self.projects[0].id;
            let tabs = self.project_window_indices(replacement);
            if tabs.len() > 0 {
                self.activate_window(tabs[0]);
            }
        }
        assert(self@ == s.disown(project));
        let mut i: usize = 0;
        assert(panes@.skip(0) =~= panes@);
        proof {
            lemma_project_panes(s.windows, project);
            assert forall|k: int, q: PaneId|
                0 <= k < self@.windows.len() && #[trigger] self@.windows[k].shows(q) implies (
            self@.windows[k].project == project <==> panes@.contains(q)) by {
                assert(s.windows[k].shows(q));
                if panes@.contains(q) {
                    lemma_project_pane_owner(s, project, q);
                }
            }
        }
        while i < panes.len()
            invariant
                i <= panes@.len(),
                s.wf(),
                s == old(self)@,
                s.removable(project),
                panes@ == project_panes(s.windows, project),
                self@.clearing(s, project),
                s.without_project(project) == self@.close_each(panes@.skip(i as int)),
                forall|j: int| 0 <= j < i ==> unshown(self@.windows, #[trigger] panes@[j]),
                forall|k: int, q: PaneId|
                    0 <= k < self@.windows.len() && #[trigger] self@.windows[k].shows(q) ==> (
                    self@.windows[k].project == project <==> panes@.contains(q)),
            decreases panes@.len() - i,
        {
            let pane: PaneId = panes[i];
            let ghost before = self@;
            proof {
                assert(panes@.contains(pane));
                assert(panes@.skip(i as int)[0] == pane);
                assert(panes@.skip(i as int).drop_first() =~= panes@.skip(i + 1));
                lemma_clearing_step(before, s, project, pane);
                lemma_window_of_found(before.windows, pane);
            }
            let done = self.close_pane(pane);
            if done.stopped {
                proof {
                    assert(self@.windows =~= other_tabs(s.windows, project));
                    assert(self@.close_each(panes@.skip(i + 1)) == self@);
                    if s.all_open() {
                        lemma_not_last(s, project);
                    }
                }
                return Some(RemovedProject { panes, stopped: true });
            }
            proof {
                assert forall|j: int| 0 <= j < i + 1 implies unshown(
                    self@.windows,
                    #[trigger] panes@[j],
                ) by {
                    if panes@[j] != pane {
                        assert(unshown(before.windows, panes@[j]));
                    }
                }
                assert forall|k: int, q: PaneId|
                    0 <= k < self@.windows.len() && #[trigger] self@.windows[k].shows(
                        q,
                    ) implies (self@.windows[k].project == project <==> panes@.contains(q)) by {
                    assert(q != pane);
                    lemma_kept_window(before, pane, k, q);
                }
            }
            i += 1;
        }
        proof {
            assert(panes@.skip(i as int) =~= Seq::<PaneId>::empty());
            assert(!has_tab(self@.windows, project)) by {
                if has_tab(self@.windows, project) {
                    let k = choose|k: int|
                        0 <= k < self@.windows.len() && (#[trigger] self@.windows[k]).project
                            == project;
                    assert(self@.windows[k].wf());
                    let q = self@.windows[k].active;
                    assert(self@.windows[k].shows(q));
                    assert(panes@.contains(q));
                    let j = choose|j: int| 0 <= j < panes@.len() && panes@[j] == q;
                    assert(unshown(self@.windows, panes@[j]));
                }
            }
            lemma_cleared(self@, s, project);
            if known(self@.projects, project) {
                let a = choose|a: int|
                    0 <= a < self@.projects.len() && (#[trigger] self@.projects[a]).id == project;
                assert(self@.projects[a].id == drop_project(s.projects, project)[a].id);
            }
        }
        Some(RemovedProject { panes, stopped: false })
    }
}

/// A Tab that is left after a Pane closed showed its other Panes before, for
/// the same Project.
proof fn lemma_kept_window(s: WorkspaceState, pane: PaneId, k: int, q: PaneId)
    requires
        s.tabs_wf(),
        0 <= k < s.windows_without(pane).len(),
        s.windows_without(pane)[k].shows(q),
    ensures
        exists|j: int|
            0 <= j < s.windows.len() && #[trigger] s.windows[j].shows(q) && s.windows[j].project
                == s.windows_without(pane)[k].project,
{
    lemma_window_of_found(s.windows, pane);
    let rest = s.windows_without(pane);
    match window_of(s.windows, pane) {
        None => {
            assert(s.windows[k].shows(q));
        },
        Some(w) => match s.windows[w].layout.minus(pane) {
            Some(layout) => {
                if k == w {
                    crate::layout::lemma_minus(s.windows[w].layout, pane);
                    assert(layout.panes().contains(q));
                    assert(s.windows[w].shows(q));
                } else {
                    assert(s.windows[k].shows(q));
                }
            },
            None => {
                let j = if k < w {
                    k
                } else {
                    k + 1
                };
                assert(s.windows[j].shows(q));
            },
        },
    }
}

} // verus!
