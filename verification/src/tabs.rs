//! Operations on Panes and Tabs: opening, splitting, moving, focusing and
//! closing them.
use crate::hierarchy::{
    drop_project, first_showing, has_tab, ids_distinct, index_of, joined, known, lemma_activate,
    lemma_insert_owned, lemma_join_owned, lemma_project_at_found, lemma_reduce_owned,
    lemma_remember, lemma_remove_owned, panes_owned_once, project_at, remember, tabs_among,
    tabs_of, unshown, window_of, Project, Win, Workspace, WorkspaceState,
};
use crate::layout::{lemma_minus, rects, Layout};
use crate::types::{PaneId, ProjectId, Rect, SplitDir};
use vstd::prelude::*;

verus! {

/// The direction that leaves both halves of a split closest to square.
pub open spec fn square_split(rect: Rect) -> SplitDir {
    if rect.w >= rect.h * 2 {
        SplitDir::Horizontal
    } else {
        SplitDir::Vertical
    }
}

/// How a Tab laid out in `area` is split beside its focused Pane.
pub open spec fn join_direction(win: Win, area: Rect) -> SplitDir {
    square_split(
        match Layout::place(rects(win.layout, area), win.active) {
            Some(rect) => rect,
            None => area,
        },
    )
}

impl WorkspaceState {
    /// The state after a new Pane split the focused one.
    pub open spec fn split_active(self, pane: PaneId, dir: SplitDir) -> WorkspaceState {
        let win = self.windows[self.active_window];
        WorkspaceState {
            windows: self.windows.update(self.active_window, joined(win, dir, pane)),
            last_active_pane: Some(win.active),
            ..self
        }
    }

    /// The state after a new Pane opened in a Tab of its own at the end.
    pub open spec fn push(self, pane: PaneId) -> WorkspaceState {
        WorkspaceState {
            windows: self.windows.push(Win::single(self.active_project, pane, None)),
            active_window: self.windows.len() as int,
            tab_scroll_follow_active: true,
            ..self
        }
    }

    /// The state after `pane` left the Tab at `source`, which closes when it
    /// showed nothing else.
    pub open spec fn detach(self, source: int, pane: PaneId) -> WorkspaceState {
        let win = self.windows[source];
        match win.layout.minus(pane) {
            Some(layout) => WorkspaceState {
                windows: self.windows.update(source, win.reduced(pane, layout)),
                ..self
            },
            None => {
                let rest = self.windows.remove(source);
                WorkspaceState {
                    windows: rest,
                    active_window: if self.active_window > source {
                        self.active_window - 1
                    } else if self.active_window == source && source >= rest.len() && source > 0 {
                        source - 1
                    } else {
                        self.active_window
                    },
                    ..self
                }
            },
        }
    }

    /// Where the Tab at `target` is found once the one at `source` has lost
    /// `pane`.
    pub open spec fn target_after(self, source: int, target: int, pane: PaneId) -> int {
        if self.windows[source].layout.minus(pane) is None && source < target {
            target - 1
        } else {
            target
        }
    }

    /// The state after a move that ended in the Tab at `index`.
    pub open spec fn land(self, index: int) -> WorkspaceState {
        WorkspaceState {
            tab_scroll_follow_active: true,
            ..(WorkspaceState { last_active_pane: None, ..self }).activate(index)
        }
    }

    /// Whether `pane` can move into the Tab at `target`: another Tab of its
    /// own Project.
    pub open spec fn can_move(self, pane: PaneId, target: int) -> bool {
        match window_of(self.windows, pane) {
            Some(source) => {
                &&& source != target
                &&& 0 <= target < self.windows.len()
                &&& self.windows[target].project == self.windows[source].project
            },
            None => false,
        }
    }

    /// The state after `pane` moved beside the focused Pane of the Tab at
    /// `target`.
    pub open spec fn move_into(self, pane: PaneId, target: int, area: Rect) -> WorkspaceState {
        let source = window_of(self.windows, pane)->0;
        let at = self.target_after(source, target, pane);
        let mid = self.detach(source, pane);
        let win = mid.windows[at];
        (WorkspaceState {
            windows: mid.windows.update(at, joined(win, join_direction(win, area), pane)),
            ..mid
        }).land(at)
    }

    /// Whether `pane` can move into a Tab of its own: it shares its present
    /// one.
    pub open spec fn can_move_out(self, pane: PaneId) -> bool {
        match window_of(self.windows, pane) {
            Some(source) => self.windows[source].layout.panes().len() >= 2,
            None => false,
        }
    }

    /// The state after `pane` moved into a new Tab right after its present one.
    pub open spec fn move_out(self, pane: PaneId) -> WorkspaceState {
        let source = window_of(self.windows, pane)->0;
        let mid = self.detach(source, pane);
        (WorkspaceState {
            windows: mid.windows.insert(
                source + 1,
                Win::single(self.windows[source].project, pane, None),
            ),
            ..mid
        }).land(source + 1)
    }
}

/// The first Tab that shows a Pane, where there is one, shows it; the Pane is
/// shown by no Tab otherwise.
pub(crate) proof fn lemma_window_of_found(windows: Seq<Win>, pane: PaneId)
    ensures
        window_of(windows, pane) matches Some(i) ==> first_showing(windows, pane, i),
        window_of(windows, pane) is None <==> unshown(windows, pane),
{
    if !unshown(windows, pane) {
        let i = choose|i: int| 0 <= i < windows.len() && (#[trigger] windows[i]).shows(pane);
        lemma_first_showing_exists(windows, pane, i);
    }
}

proof fn lemma_first_showing_exists(windows: Seq<Win>, pane: PaneId, i: int)
    requires
        0 <= i < windows.len(),
        windows[i].shows(pane),
    ensures
        exists|k: int| first_showing(windows, pane, k),
    decreases i,
{
    if forall|j: int| 0 <= j < i ==> !(#[trigger] windows[j]).shows(pane) {
        assert(first_showing(windows, pane, i));
    } else {
        let j = choose|j: int| 0 <= j < i && (#[trigger] windows[j]).shows(pane);
        lemma_first_showing_exists(windows, pane, j);
    }
}

/// Detaching a Pane from a Tab keeps every other Pane where it is shown.
proof fn lemma_detach(s: WorkspaceState, source: int, pane: PaneId)
    requires
        s.tabs_wf(),
        0 <= source < s.windows.len(),
        s.windows[source].shows(pane),
    ensures
        panes_owned_once(s.detach(source, pane).windows),
        unshown(s.detach(source, pane).windows, pane),
        forall|q: PaneId|
            q != pane ==> #[trigger] unshown(s.detach(source, pane).windows, q) == unshown(
                s.windows,
                q,
            ),
{
    match s.windows[source].layout.minus(pane) {
        Some(layout) => lemma_reduce_owned(s.windows, source, pane, layout),
        None => lemma_remove_owned(s.windows, source, pane),
    }
}

proof fn lemma_land(s: WorkspaceState, index: int)
    requires
        s.owned_wf(),
        0 <= index < s.windows.len(),
    ensures
        s.land(index).wf(),
        s.land(index).windows == s.windows,
        s.all_open() ==> s.land(index).all_open(),
{
    let t = WorkspaceState { last_active_pane: None, ..s };
    assert(t.owned_wf());
    lemma_activate(t, index);
    let out = s.land(index);
    assert(out.projects == t.activate(index).projects);
    assert(out.wf());
}

/// Moving a Pane into another Tab of its Project keeps the invariant, and
/// every Pane stays shown by exactly the one Tab.
pub proof fn lemma_move_into(s: WorkspaceState, pane: PaneId, target: int, area: Rect)
    requires
        s.wf(),
        s.can_move(pane, target),
    ensures
        s.move_into(pane, target, area).wf(),
        forall|q: PaneId| #[trigger]
            unshown(s.move_into(pane, target, area).windows, q) == unshown(s.windows, q),
        s.all_open() ==> s.move_into(pane, target, area).all_open(),
{
    let source = window_of(s.windows, pane)->0;
    lemma_window_of_found(s.windows, pane);
    lemma_detach(s, source, pane);
    let at = s.target_after(source, target, pane);
    let mid = s.detach(source, pane);
    let win = mid.windows[at];
    let dir = join_direction(win, area);
    lemma_join_owned(mid.windows, at, dir, pane);
    let next = WorkspaceState { windows: mid.windows.update(at, joined(win, dir, pane)), ..mid };
    let closed = s.windows[source].layout.minus(pane) is None;
    let project = s.windows[source].project;
    assert(next.windows[at].project == project);
    assert forall|i: int| 0 <= i < next.windows.len() implies known(
        next.projects,
        (#[trigger] next.windows[i]).project,
    ) by {
        let old_i = if closed && i >= source {
            i + 1
        } else {
            i
        };
        assert(next.windows[i].project == s.windows[old_i].project);
    }
    if s.all_open() {
        assert forall|i: int| 0 <= i < next.projects.len() implies has_tab(
            next.windows,
            (#[trigger] next.projects[i]).id,
        ) by {
            let id = s.projects[i].id;
            assert(has_tab(s.windows, id));
            let k = choose|k: int| 0 <= k < s.windows.len() && (#[trigger] s.windows[k]).project == id;
            if closed {
                if k == source {
                    assert(next.windows[at].project == id);
                } else if k < source {
                    assert(next.windows[k].project == id);
                } else {
                    assert(next.windows[k - 1].project == id);
                }
            } else {
                assert(next.windows[k].project == id);
            }
        }
    }
    assert(next.owned_wf());
    lemma_land(next, at);
    assert forall|q: PaneId| #[trigger]
        unshown(s.move_into(pane, target, area).windows, q) == unshown(s.windows, q) by {
        assert(unshown(next.windows, q) == (unshown(mid.windows, q) && q != pane));
        if q == pane {
            assert(s.windows[source].shows(pane));
        }
    }
}

/// Moving a Pane into a Tab of its own keeps the invariant, and every Pane
/// stays shown by exactly the one Tab.
pub proof fn lemma_move_out(s: WorkspaceState, pane: PaneId)
    requires
        s.wf(),
        s.can_move_out(pane),
    ensures
        s.move_out(pane).wf(),
        s.move_out(pane).windows.len() == s.windows.len() + 1,
        forall|q: PaneId| #[trigger]
            unshown(s.move_out(pane).windows, q) == unshown(s.windows, q),
        s.all_open() ==> s.move_out(pane).all_open(),
{
    let source = window_of(s.windows, pane)->0;
    lemma_window_of_found(s.windows, pane);
    lemma_detach(s, source, pane);
    lemma_shares(s.windows[source], pane);
    let mid = s.detach(source, pane);
    let project = s.windows[source].project;
    let new = Win::single(project, pane, None);
    lemma_insert_owned(mid.windows, source + 1, new, pane);
    let next = WorkspaceState { windows: mid.windows.insert(source + 1, new), ..mid };
    assert forall|i: int| 0 <= i < next.windows.len() implies known(
        next.projects,
        (#[trigger] next.windows[i]).project,
    ) by {
        let old_i = if i <= source {
            i
        } else {
            i - 1
        };
        assert(next.windows[i].project == s.windows[old_i].project);
    }
    if s.all_open() {
        assert forall|i: int| 0 <= i < next.projects.len() implies has_tab(
            next.windows,
            (#[trigger] next.projects[i]).id,
        ) by {
            let id = s.projects[i].id;
            assert(has_tab(s.windows, id));
            let k = choose|k: int| 0 <= k < s.windows.len() && (#[trigger] s.windows[k]).project == id;
            if k <= source {
                assert(next.windows[k].project == id);
            } else {
                assert(next.windows[k + 1].project == id);
            }
        }
    }
    assert(next.owned_wf());
    lemma_land(next, source + 1);
    assert forall|q: PaneId| #[trigger]
        unshown(s.move_out(pane).windows, q) == unshown(s.windows, q) by {
        assert(unshown(next.windows, q) == (unshown(mid.windows, q) && q != pane));
        if q == pane {
            assert(s.windows[source].shows(pane));
        }
    }
}

/// A Tab that shows two Panes keeps one when the other leaves.
pub(crate) proof fn lemma_shares(win: Win, pane: PaneId)
    requires
        win.wf(),
        win.layout.panes().len() >= 2,
    ensures
        win.layout.minus(pane) is Some,
{
    lemma_minus(win.layout, pane);
    let ids = win.layout.panes();
    assert(ids[0] != ids[1]);
    assert(ids.contains(ids[0]));
    assert(ids.contains(ids[1]));
}

impl Workspace {
    /// Wire a freshly spawned Pane in as a split of the focused one: split in
    /// `dir`, focus it, drop any zoom.
    pub fn split_active_pane(&mut self, new_id: PaneId, dir: SplitDir)
        requires
            old(self)@.wf(),
            unshown(old(self)@.windows, new_id),
        ensures
            final(self)@ == old(self)@.split_active(new_id, dir),
            final(self)@.wf(),
            old(self)@.all_open() ==> final(self)@.all_open(),
    {
        proof {
            lemma_join_owned(self@.windows, self@.active_window, dir, new_id);
        }
        let wi: usize = self.active_window;
        let active = self.windows[wi].active;
        self.windows[wi].layout.split(active, dir, new_id);
        self.last_active_pane = Some(active);
        self.windows[wi].active = new_id;
        self.windows[wi].zoomed = None;
        proof {
            let s = old(self)@;
            assert(self@.windows =~= s.windows.update(
                s.active_window,
                joined(s.windows[s.active_window], dir, new_id),
            ));
            assert forall|i: int| 0 <= i < self@.windows.len() implies known(
                self@.projects,
                (#[trigger] self@.windows[i]).project,
            ) by {
                assert(self@.windows[i].project == s.windows[i].project);
            }
            if s.all_open() {
                assert forall|i: int| 0 <= i < self@.projects.len() implies has_tab(
                    self@.windows,
                    (#[trigger] self@.projects[i]).id,
                ) by {
                    let id = s.projects[i].id;
                    assert(has_tab(s.windows, id));
                    let k = choose|k: int|
                        0 <= k < s.windows.len() && (#[trigger] s.windows[k]).project == id;
                    assert(self@.windows[k].project == id);
                }
            }
        }
    }

    /// Wire a freshly spawned Pane in as a new Tab and switch to it.
    pub fn push_window(&mut self, new_id: PaneId)
        requires
            old(self)@.wf(),
            unshown(old(self)@.windows, new_id),
        ensures
            final(self)@ == old(self)@.push(new_id),
            final(self)@.wf(),
            old(self)@.all_open() ==> final(self)@.all_open(),
    {
        let ghost s = self@;
        proof {
            let win = Win::single(s.active_project, new_id, None);
            lemma_insert_owned(s.windows, s.windows.len() as int, win, new_id);
            assert(s.windows.insert(s.windows.len() as int, win) =~= s.windows.push(win));
        }
        self.windows.push(Win::new_single(self.active_project, new_id, None));
        self.active_window = self.windows.len() - 1;
        self.tab_scroll_follow_active = true;
        proof {
            if s.all_open() {
                assert forall|i: int| 0 <= i < self@.projects.len() implies has_tab(
                    self@.windows,
                    (#[trigger] self@.projects[i]).id,
                ) by {
                    let id = s.projects[i].id;
                    assert(has_tab(s.windows, id));
                    let k = choose|k: int|
                        0 <= k < s.windows.len() && (#[trigger] s.windows[k]).project == id;
                    assert(self@.windows[k].project == id);
                }
            }
            assert forall|i: int| 0 <= i < self@.windows.len() implies known(
                self@.projects,
                (#[trigger] self@.windows[i]).project,
            ) by {
                if i < s.windows.len() {
                    assert(self@.windows[i] == s.windows[i]);
                } else {
                    assert(known(s.projects, s.windows[s.active_window].project));
                }
            }
        }
    }

    /// Take `pane` out of the Tab at `source`; whether that closed the Tab.
    fn detach_pane(&mut self, source: usize, pane: PaneId) -> (closed: bool)
        requires
            old(self)@.tabs_wf(),
            source < old(self)@.windows.len(),
        ensures
            final(self)@ == old(self)@.detach(source as int, pane),
            closed == (old(self)@.windows[source as int].layout.minus(pane) is None),
    {
        match self.windows[source].layout.without(pane) {
            Some(layout) => {
                if self.windows[source].active == pane {
                    self.windows[source].active = layout.first_pane();
                }
                if self.windows[source].zoomed == Some(pane) {
                    self.windows[source].zoomed = None;
                }
                self.windows[source].layout = layout;
                assert(self@.windows =~= old(self)@.detach(source as int, pane).windows);
                false
            },
            None => {
                self.windows.remove(source);
                if self.active_window > source {
                    self.active_window -= 1;
                } else if self.active_window == source {
                    let last: usize = if self.windows.len() == 0 {
                        0
                    } else {
                        self.windows.len() - 1
                    };
                    self.active_window = if source < last {
                        source
                    } else {
                        last
                    };
                }
                assert(self@.windows =~= old(self)@.detach(source as int, pane).windows);
                true
            },
        }
    }

    fn finish_pane_move(&mut self, target: usize)
        ensures
            final(self)@ == old(self)@.land(target as int),
    {
        self.last_active_pane = None;
        self.activate_window(target);
        self.tab_scroll_follow_active = true;
    }

    /// Re-home `pane` beside the focused Pane of the Tab at `target`, splitting
    /// along that Pane's longer side. A source Tab left empty closes, but the
    /// Pane lives on. Whether the Pane could move.
    pub fn move_pane_to_window(&mut self, area: Rect, pane: PaneId, target: usize) -> (moved: bool)
        requires
            old(self)@.wf(),
            area.fits(),
        ensures
            moved == old(self)@.can_move(pane, target as int),
            final(self)@ == if moved {
                old(self)@.move_into(pane, target as int, area)
            } else {
                old(self)@
            },
            final(self)@.wf(),
            old(self)@.all_open() ==> final(self)@.all_open(),
            forall|q: PaneId| #[trigger]
                unshown(final(self)@.windows, q) == unshown(old(self)@.windows, q),
    {
        let ghost s = self@;
        proof {
            lemma_window_of_found(s.windows, pane);
        }
        let Some(source) = self.window_of(pane) else {
            return false;
        };
        if source == target || target >= self.windows.len() {
            return false;
        }
        if self.windows[target].project != self.windows[source].project {
            return false;
        }
        proof {
            lemma_move_into(s, pane, target as int, area);
        }
        let closed = self.detach_pane(source, pane);
        let at: usize = if closed && source < target {
            target - 1
        } else {
            target
        };
        let anchor = self.windows[at].active;
        let rect = match self.windows[at].layout.compute(area).rect_of(anchor) {
            Some(rect) => rect,
            None => area,
        };
        // Prefer the split that leaves both Panes closest to square.
        let dir = if rect.w as u32 >= rect.h as u32 * 2 {
            SplitDir::Horizontal
        } else {
            SplitDir::Vertical
        };
        let ghost mid = self@;
        self.windows[at].layout.split(anchor, dir, pane);
        self.windows[at].zoomed = None;
        self.windows[at].active = pane;
        assert(dir == join_direction(mid.windows[at as int], area));
        assert(self@.windows =~= mid.windows.update(
            at as int,
            joined(mid.windows[at as int], dir, pane),
        ));
        self.finish_pane_move(at);
        true
    }

    /// Re-home `pane` as the only Pane of a new Tab right after its current
    /// one. A Pane already alone in its Tab has nothing to move.
    pub fn move_pane_to_new_window(&mut self, pane: PaneId) -> (moved: bool)
        requires
            old(self)@.wf(),
        ensures
            moved == old(self)@.can_move_out(pane),
            final(self)@ == if moved {
                old(self)@.move_out(pane)
            } else {
                old(self)@
            },
            final(self)@.wf(),
            old(self)@.all_open() ==> final(self)@.all_open(),
            forall|q: PaneId| #[trigger]
                unshown(final(self)@.windows, q) == unshown(old(self)@.windows, q),
    {
        let ghost s = self@;
        proof {
            lemma_window_of_found(s.windows, pane);
        }
        let Some(source) = self.window_of(pane) else {
            return false;
        };
        if self.windows[source].layout.pane_ids().len() < 2 {
            return false;
        }
        proof {
            lemma_move_out(s, pane);
            lemma_shares(s.windows[source as int], pane);
        }
        let project = self.windows[source].project;
        self.detach_pane(source, pane);
        let ghost mid = self@;
        assert(source < self.windows.len());
        self.windows.insert(source + 1, Win::new_single(project, pane, None));
        assert(self@.windows =~= mid.windows.insert(
            source + 1,
            Win::single(project, pane, None),
        ));
        self.finish_pane_move(source + 1);
        true
    }
}

/// The nearest Tab of `project` before index `n`.
pub open spec fn tab_before(windows: Seq<Win>, project: ProjectId, n: int) -> Option<int>
    decreases n,
{
    if n <= 0 {
        None
    } else if windows[n - 1].project == project {
        Some(n - 1)
    } else {
        tab_before(windows, project, n - 1)
    }
}

/// The Tab to show once the active one, at `closed`, is gone: its left
/// neighbour in the same Project, else another Tab of that Project, else the
/// Tab to its left.
pub open spec fn heir(windows: Seq<Win>, project: ProjectId, closed: int) -> int {
    match tab_before(windows, project, closed) {
        Some(i) => i,
        None => if tabs_of(windows, project).len() > 0 {
            tabs_of(windows, project)[0] as int
        } else if closed == 0 {
            0
        } else if closed - 1 < windows.len() - 1 {
            closed - 1
        } else {
            windows.len() - 1
        },
    }
}

impl WorkspaceState {
    /// The Project that loses its last Tab with `pane`, unless it is the last
    /// Project.
    pub open spec fn emptied_project(self, pane: PaneId) -> Option<ProjectId> {
        match window_of(self.windows, pane) {
            Some(w) => {
                let project = self.windows[w].project;
                if self.windows[w].layout.panes().len() == 1 && self.projects.len() > 1 && tabs_of(
                    self.windows,
                    project,
                ).len() == 1 && project_at(self.projects, project) is Some {
                    Some(project)
                } else {
                    None
                }
            },
            None => None,
        }
    }

    /// The Tabs left when `pane` closes.
    pub open spec fn windows_without(self, pane: PaneId) -> Seq<Win> {
        match window_of(self.windows, pane) {
            Some(w) => match self.windows[w].layout.minus(pane) {
                Some(layout) => self.windows.update(w, self.windows[w].reduced(pane, layout)),
                None => self.windows.remove(w),
            },
            None => self.windows,
        }
    }

    /// The active Tab once `pane` closed.
    pub open spec fn active_without(self, pane: PaneId) -> int {
        let rest = self.windows_without(pane);
        match window_of(self.windows, pane) {
            Some(w) => if self.windows[w].layout.minus(pane) is Some {
                self.active_window
            } else if w == self.active_window {
                heir(rest, self.windows[w].project, w)
            } else if w < self.active_window {
                self.active_window - 1
            } else {
                self.active_window
            },
            None => self.active_window,
        }
    }

    /// The Projects left when `pane` closes.
    pub open spec fn projects_without(self, pane: PaneId) -> Seq<Project> {
        match self.emptied_project(pane) {
            Some(project) => drop_project(self.projects, project),
            None => self.projects,
        }
    }

    /// The state after `pane` closed. Nothing is active once no Tab is left.
    pub open spec fn close(self, pane: PaneId) -> WorkspaceState {
        let rest = self.windows_without(pane);
        let projects = self.projects_without(pane);
        if rest.len() == 0 {
            WorkspaceState { windows: rest, projects, ..self }
        } else {
            let tab = rest[self.active_without(pane)];
            WorkspaceState {
                windows: rest,
                active_window: self.active_without(pane),
                active_project: tab.project,
                projects: remember(projects, tab.project, tab.active),
                ..self
            }
        }
    }
}

/// `tabs_among` lists exactly the Tabs of the Project, each once and in order.
pub(crate) proof fn lemma_tabs_among(windows: Seq<Win>, project: ProjectId, n: nat)
    requires
        n <= windows.len() <= usize::MAX,
    ensures
        forall|i: int|
            0 <= i < tabs_among(windows, project, n).len() ==> {
                &&& 0 <= #[trigger] tabs_among(windows, project, n)[i] < n
                &&& windows[tabs_among(windows, project, n)[i] as int].project == project
            },
        forall|i: int, j: int|
            0 <= i < j < tabs_among(windows, project, n).len() ==> #[trigger] tabs_among(
                windows,
                project,
                n,
            )[i] < #[trigger] tabs_among(windows, project, n)[j],
        forall|k: int|
            0 <= k < n && (#[trigger] windows[k]).project == project ==> exists|i: int|
                0 <= i < tabs_among(windows, project, n).len() && #[trigger] tabs_among(
                    windows,
                    project,
                    n,
                )[i] == k,
    decreases n,
{
    if n > 0 {
        lemma_tabs_among(windows, project, (n - 1) as nat);
        let rest = tabs_among(windows, project, (n - 1) as nat);
        let all = tabs_among(windows, project, n);
        assert forall|k: int| 0 <= k < n && (#[trigger] windows[k]).project
            == project implies exists|i: int| 0 <= i < all.len() && #[trigger] all[i] == k by {
            if k < n - 1 {
                let i = choose|i: int| 0 <= i < rest.len() && #[trigger] rest[i] == k;
                assert(all[i] == k);
            } else {
                assert(all[all.len() - 1] == k);
            }
        }
    }
}

/// `drop_project` keeps exactly the Projects with another id, in order.
pub(crate) proof fn lemma_drop_project(projects: Seq<Project>, id: ProjectId)
    requires
        ids_distinct(projects),
    ensures
        forall|i: int|
            0 <= i < drop_project(projects, id).len() ==> (#[trigger] drop_project(
                projects,
                id,
            )[i]).id != id && projects.contains(drop_project(projects, id)[i]),
        forall|p: ProjectId| #[trigger]
            known(drop_project(projects, id), p) == (known(projects, p) && p != id),
        ids_distinct(drop_project(projects, id)),
        drop_project(projects, id).len() == projects.len() - if known(projects, id) {
            1int
        } else {
            0
        },
    decreases projects.len(),
{
    if projects.len() > 0 {
        let head = projects.drop_last();
        let last = projects.last();
        let rest = drop_project(head, id);
        let out = drop_project(projects, id);
        lemma_drop_project(head, id);
        assert forall|i: int| 0 <= i < out.len() implies (#[trigger] out[i]).id != id
            && projects.contains(out[i]) by {
            if i < rest.len() {
                assert(head.contains(rest[i]));
                let k = choose|k: int| 0 <= k < head.len() && head[k] == rest[i];
                assert(projects[k] == out[i]);
            } else {
                assert(projects[projects.len() - 1] == out[i]);
            }
        }
        assert forall|p: ProjectId| #[trigger] known(out, p) == (known(projects, p) && p != id) by {
            assert(known(projects, p) == (known(head, p) || last.id == p)) by {
                if known(head, p) {
                    let k = choose|k: int| 0 <= k < head.len() && (#[trigger] head[k]).id == p;
                    assert(projects[k].id == p);
                }
                if last.id == p {
                    assert(projects[projects.len() - 1].id == p);
                }
                if known(projects, p) {
                    let k = choose|k: int|
                        0 <= k < projects.len() && (#[trigger] projects[k]).id == p;
                    if k < head.len() {
                        assert(head[k].id == p);
                    }
                }
            }
            assert(known(rest, p) == (known(head, p) && p != id));
            if last.id != id {
                assert(known(out, p) == (known(rest, p) || last.id == p)) by {
                    if known(rest, p) {
                        let k = choose|k: int| 0 <= k < rest.len() && (#[trigger] rest[k]).id == p;
                        assert(out[k].id == p);
                    }
                    if last.id == p {
                        assert(out[out.len() - 1].id == p);
                    }
                    if known(out, p) {
                        let k = choose|k: int| 0 <= k < out.len() && (#[trigger] out[k]).id == p;
                        if k < rest.len() {
                            assert(rest[k].id == p);
                        }
                    }
                }
            }
        }
        assert forall|i: int, j: int| 0 <= i < j < out.len() implies (#[trigger] out[i]).id
            != (#[trigger] out[j]).id by {
            if j >= rest.len() {
                assert(head.contains(rest[i]));
                let k = choose|k: int| 0 <= k < head.len() && head[k] == rest[i];
                assert(projects[k].id != projects[projects.len() - 1].id);
            }
        }
        assert(known(projects, id) == (known(head, id) || last.id == id)) by {
            if known(head, id) {
                let k = choose|k: int| 0 <= k < head.len() && (#[trigger] head[k]).id == id;
                assert(projects[k].id == id);
            }
            if last.id == id {
                assert(projects[projects.len() - 1].id == id);
            }
            if known(projects, id) {
                let k = choose|k: int| 0 <= k < projects.len() && (#[trigger] projects[k]).id == id;
                if k < head.len() {
                    assert(head[k].id == id);
                }
            }
        }
        if last.id == id && known(head, id) {
            let k = choose|k: int| 0 <= k < head.len() && (#[trigger] head[k]).id == id;
            assert(projects[k].id != projects[projects.len() - 1].id);
        }
    }
}

pub(crate) proof fn lemma_tab_before(windows: Seq<Win>, project: ProjectId, n: int)
    requires
        n <= windows.len(),
    ensures
        tab_before(windows, project, n) matches Some(i) ==> 0 <= i < n && windows[i].project
            == project,
        tab_before(windows, project, n) is None ==> forall|i: int|
            0 <= i < n ==> (#[trigger] windows[i]).project != project,
    decreases n,
{
    if n > 0 && windows[n - 1].project != project {
        lemma_tab_before(windows, project, n - 1);
    }
}

pub(crate) proof fn lemma_heir(windows: Seq<Win>, project: ProjectId, closed: int)
    requires
        0 <= closed <= windows.len(),
        0 < windows.len() <= usize::MAX,
    ensures
        0 <= heir(windows, project, closed) < windows.len(),
        has_tab(windows, project) ==> windows[heir(windows, project, closed)].project == project,
{
    lemma_tab_before(windows, project, closed);
    lemma_tabs_among(windows, project, windows.len());
    if has_tab(windows, project) && tab_before(windows, project, closed) is None {
        let k = choose|k: int| 0 <= k < windows.len() && (#[trigger] windows[k]).project == project;
        assert(exists|i: int|
            0 <= i < tabs_of(windows, project).len() && #[trigger] tabs_of(windows, project)[i]
                == k);
    }
}

/// Closing a Pane keeps every other Pane where it is shown.
pub proof fn lemma_close_tabs(s: WorkspaceState, pane: PaneId)
    requires
        s.tabs_wf(),
        s.windows.len() <= usize::MAX,
    ensures
        panes_owned_once(s.windows_without(pane)),
        unshown(s.windows_without(pane), pane),
        forall|q: PaneId|
            q != pane ==> #[trigger] unshown(s.windows_without(pane), q) == unshown(s.windows, q),
        s.windows_without(pane).len() > 0 ==> 0 <= s.active_without(pane) < s.windows_without(
            pane,
        ).len(),
        s.windows_without(pane).len() > 0 ==> s.close(pane).tabs_wf(),
{
    lemma_window_of_found(s.windows, pane);
    if let Some(w) = window_of(s.windows, pane) {
        match s.windows[w].layout.minus(pane) {
            Some(layout) => lemma_reduce_owned(s.windows, w, pane, layout),
            None => {
                lemma_remove_owned(s.windows, w, pane);
                if s.windows_without(pane).len() > 0 {
                    lemma_heir(s.windows_without(pane), s.windows[w].project, w);
                }
            },
        }
    }
}

/// Closing a Pane of a running Workspace leaves a running Workspace, unless it
/// was the last Pane.
pub proof fn lemma_close(s: WorkspaceState, pane: PaneId)
    requires
        s.wf(),
        s.windows.len() <= usize::MAX,
    ensures
        s.windows_without(pane).len() > 0 ==> s.close(pane).wf(),
        s.windows_without(pane).len() > 0 && s.all_open() ==> s.close(pane).all_open(),
{
    let rest = s.windows_without(pane);
    let projects = s.projects_without(pane);
    lemma_close_tabs(s, pane);
    lemma_window_of_found(s.windows, pane);
    if rest.len() > 0 {
        let gone = s.emptied_project(pane);
        if let Some(p) = gone {
            lemma_drop_project(s.projects, p);
        }
        let tab = rest[s.active_without(pane)];
        lemma_remember(projects, tab.project, tab.active);
        let out = s.close(pane);
        match window_of(s.windows, pane) {
            None => {
                assert(rest =~= s.windows);
                if s.all_open() {
                    assert forall|i: int| 0 <= i < out.projects.len() implies has_tab(
                        out.windows,
                        (#[trigger] out.projects[i]).id,
                    ) && out.projects[i].id.0 < out.next_project_id by {
                        assert(out.projects[i].id == s.projects[i].id);
                        assert(has_tab(s.windows, s.projects[i].id));
                    }
                }
            },
            Some(w) => {
                let project = s.windows[w].project;
                lemma_tabs_among(s.windows, project, s.windows.len());
                let tabs = tabs_of(s.windows, project);
                lemma_minus(s.windows[w].layout, pane);
                let closed = s.windows[w].layout.minus(pane) is None;
                if closed {
                    lemma_lone(s.windows[w], pane);
                } else if s.windows[w].layout.panes().len() == 1 {
                    let ids = s.windows[w].layout.panes();
                    assert forall|q: PaneId| #[trigger] ids.contains(q) implies q == pane by {
                        let a = choose|a: int| 0 <= a < ids.len() && ids[a] == q;
                        let b = choose|b: int| 0 <= b < ids.len() && ids[b] == pane;
                        assert(a == b);
                    }
                }
                lemma_project_at_found(s.projects, project);
                assert(known(s.projects, s.windows[w].project));
                let old_index = |i: int| if closed && i >= w { i + 1 } else { i };
                assert forall|i: int| 0 <= i < rest.len() implies (#[trigger] rest[i]).project
                    == s.windows[old_index(i)].project by {}
                assert forall|i: int| 0 <= i < out.windows.len() implies known(
                    out.projects,
                    (#[trigger] out.windows[i]).project,
                ) by {
                    let p = s.windows[old_index(i)].project;
                    assert(known(s.projects, p));
                    if gone is Some && p == project {
                        let k = old_index(i);
                        let a = choose|a: int| 0 <= a < tabs.len() && #[trigger] tabs[a] == k;
                        assert(s.windows[w].project == project);
                        let b = choose|b: int| 0 <= b < tabs.len() && #[trigger] tabs[b] == w;
                        assert(a == b);
                    }
                    assert(known(projects, p));
                }
                if s.all_open() {
                    assert forall|i: int| 0 <= i < out.projects.len() implies has_tab(
                        out.windows,
                        (#[trigger] out.projects[i]).id,
                    ) && out.projects[i].id.0 < out.next_project_id by {
                        let id = out.projects[i].id;
                        assert(id == projects[i].id);
                        if gone is Some {
                            assert(s.projects.contains(projects[i]));
                        }
                        assert(known(projects, id));
                        assert(known(s.projects, id)) by {
                            if gone is None {
                                assert(s.projects[i].id == id);
                            }
                        }
                        let m = choose|m: int| 0 <= m < s.projects.len() && (#[trigger] s.projects[m]).id
                            == id;
                        assert(has_tab(s.windows, s.projects[m].id));
                        let k = choose|k: int|
                            0 <= k < s.windows.len() && (#[trigger] s.windows[k]).project == id;
                        if closed && k == w {
                            assert(gone is None);
                            let other = lemma_other_tab(s, w);
                            if other < w {
                                assert(rest[other].project == id);
                            } else {
                                assert(rest[other - 1].project == id);
                            }
                        } else if closed && k > w {
                            assert(rest[k - 1].project == id);
                        } else {
                            assert(rest[k].project == id);
                        }
                    }
                }
            },
        }
    }
}

/// A Tab that closes with `pane` showed nothing else.
pub(crate) proof fn lemma_lone(win: Win, pane: PaneId)
    requires
        win.wf(),
        win.layout.minus(pane) is None,
    ensures
        win.layout.panes().len() == 1,
{
    lemma_minus(win.layout, pane);
    let ids = win.layout.panes();
    if ids.len() >= 2 {
        assert(ids.contains(ids[0]));
        assert(ids.contains(ids[1]));
        assert(ids[0] != ids[1]);
    }
    crate::layout::lemma_panes_nonempty(win.layout);
}

/// A Project that is not emptied by closing the Tab at `w` has another Tab.
proof fn lemma_other_tab(s: WorkspaceState, w: int) -> (other: int)
    requires
        s.wf(),
        s.windows.len() <= usize::MAX,
        0 <= w < s.windows.len(),
        s.windows.len() > 1,
        s.projects.len() > 1 ==> tabs_of(s.windows, s.windows[w].project).len() != 1,
    ensures
        0 <= other < s.windows.len(),
        other != w,
        s.windows[other].project == s.windows[w].project,
{
    let project = s.windows[w].project;
    let tabs = tabs_of(s.windows, project);
    lemma_tabs_among(s.windows, project, s.windows.len());
    let a = choose|a: int| 0 <= a < tabs.len() && #[trigger] tabs[a] == w;
    if s.projects.len() > 1 {
        let b = if a == 0 {
            1int
        } else {
            0
        };
        assert(tabs[b] != tabs[a]);
        tabs[b] as int
    } else {
        let other = if w == 0 {
            1int
        } else {
            0
        };
        assert(known(s.projects, s.windows[other].project));
        assert(known(s.projects, s.windows[w].project));
        other
    }
}

/// What closing a Pane did to the hierarchy.
#[derive(Clone, Copy, Debug, PartialEq, Eq, Structural)]
pub struct ClosedPane {
    /// The Project that went with its last Tab.
    pub removed_project: Option<ProjectId>,
    /// No Tab is left, so the server stops.
    pub stopped: bool,
    /// Another Project became the active one.
    pub project_changed: bool,
}

impl WorkspaceState {
    /// What closing a Pane does to the hierarchy.
    pub open spec fn closing(self, pane: PaneId) -> ClosedPane {
        let stopped = self.windows_without(pane).len() == 0;
        ClosedPane {
            removed_project: self.emptied_project(pane),
            stopped,
            project_changed: !stopped && self.active_project != self.close(pane).active_project,
        }
    }
}

impl Workspace {
    fn emptied_project(&self, pane: PaneId) -> (project: Option<ProjectId>)
        ensures
            project == self@.emptied_project(pane),
    {
        match self.window_of(pane) {
            Some(w) => {
                proof {
                    lemma_window_of_found(self@.windows, pane);
                }
                let project = self.windows[w].project;
                if self.windows[w].layout.pane_ids().len() == 1 && self.projects.len() > 1
                    && self.project_window_indices(project).len() == 1
                    && self.project_position(project).is_some() {
                    Some(project)
                } else {
                    None
                }
            },
            None => None,
        }
    }

    pub(crate) fn forget_project(&mut self, id: ProjectId)
        ensures
            final(self)@ == (WorkspaceState {
                projects: drop_project(old(self)@.projects, id),
                ..old(self)@
            }),
    {
        let mut kept: Vec<Project> = Vec::new();
        let mut all: Vec<Project> = Vec::new();
        std::mem::swap(&mut all, &mut self.projects);
        let ghost before = all@;
        let n: usize = all.len();
        let mut i: usize = 0;
        assert(before.take(0) =~= Seq::<Project>::empty());
        while i < n
            invariant
                i <= n,
                n == before.len(),
                all@ == before.skip(i as int),
                kept@ == drop_project(before.take(i as int), id),
            decreases n - i,
        {
            let project = all.remove(0);
            proof {
                assert(before.take(i + 1).drop_last() =~= before.take(i as int));
                assert(before.take(i + 1).last() == project);
                assert(all@ =~= before.skip(i + 1));
            }
            if project.id != id {
                kept.push(project);
            }
            i += 1;
        }
        assert(before.take(n as int) =~= before);
        self.projects = kept;
    }

    fn tab_before(&self, project: ProjectId, n: usize) -> (found: Option<usize>)
        requires
            n <= self@.windows.len(),
        ensures
            index_of(found) == tab_before(self@.windows, project, n as int),
    {
        let mut i: usize = n;
        while i > 0
            invariant
                i <= n <= self.windows@.len(),
                tab_before(self.windows@, project, n as int) == tab_before(
                    self.windows@,
                    project,
                    i as int,
                ),
            decreases i,
        {
            if self.windows[i - 1].project == project {
                return Some(i - 1);
            }
            i -= 1;
        }
        None
    }

    fn heir_of(&self, project: ProjectId, closed: usize) -> (index: usize)
        requires
            closed <= self@.windows.len(),
            self@.windows.len() > 0,
        ensures
            index == heir(self@.windows, project, closed as int),
    {
        proof {
            assert(self.windows.len() <= usize::MAX);
            lemma_heir(self@.windows, project, closed as int);
        }
        match self.tab_before(project, closed) {
            Some(i) => i,
            None => {
                let tabs = self.project_window_indices(project);
                if tabs.len() > 0 {
                    tabs[0]
                } else if closed == 0 {
                    0
                } else if closed - 1 < self.windows.len() - 1 {
                    closed - 1
                } else {
                    self.windows.len() - 1
                }
            },
        }
    }

    /// Close a Pane (its process exited, or the user killed it): collapse its
    /// Tab's layout, and close the Tab, and the Project, that it leaves empty.
    pub fn close_pane(&mut self, pane: PaneId) -> (done: ClosedPane)
        requires
            old(self)@.tabs_wf(),
        ensures
            final(self)@ == old(self)@.close(pane),
            done == old(self)@.closing(pane),
            !done.stopped ==> final(self)@.tabs_wf(),
            old(self)@.wf() && !done.stopped ==> final(self)@.wf(),
            old(self)@.wf() && old(self)@.all_open() && !done.stopped ==> final(self)@.all_open(),
            unshown(final(self)@.windows, pane),
            forall|q: PaneId|
                q != pane ==> #[trigger] unshown(final(self)@.windows, q) == unshown(
                    old(self)@.windows,
                    q,
                ),
    {
        let ghost s = self@;
        proof {
            lemma_window_of_found(s.windows, pane);
            assert(self.windows.len() <= usize::MAX);
            lemma_close_tabs(s, pane);
            if s.wf() {
                lemma_close(s, pane);
            }
        }
        let removed_project = self.emptied_project(pane);
        if let Some(project) = removed_project {
            self.forget_project(project);
        }
        if let Some(w) = self.window_of(pane) {
            match self.windows[w].layout.without(pane) {
                Some(layout) => {
                    if self.windows[w].active == pane {
                        self.windows[w].active = layout.first_pane();
                    }
                    if self.windows[w].zoomed == Some(pane) {
                        self.windows[w].zoomed = None;
                    }
                    self.windows[w].layout = layout;
                },
                None => {
                    let project = self.windows[w].project;
                    self.windows.remove(w);
                    if self.windows.len() == 0 {
                        assert(self@.windows =~= s.windows_without(pane));
                        return ClosedPane { removed_project, stopped: true, project_changed: false };
                    }
                    // Keep the active Tab across earlier removals; when it
                    // closes itself, prefer its left neighbour in the Project.
                    if w == self.active_window {
                        self.active_window = self.heir_of(project, w);
                    } else if w < self.active_window {
                        self.active_window -= 1;
                    }
                },
            }
        }
        assert(self@.windows =~= s.windows_without(pane));
        assert(self@.active_window == s.active_without(pane));
        let project = self.windows[self.active_window].project;
        let active = self.windows[self.active_window].active;
        let project_changed = self.active_project != project;
        self.active_project = project;
        self.remember_focus(project, active);
        ClosedPane { removed_project, stopped: false, project_changed }
    }
}

} // verus!
