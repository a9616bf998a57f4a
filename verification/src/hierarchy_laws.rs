//! What the hierarchy of a Workspace can rely on: where the focus goes, where
//! Panes, Tabs and Projects end up, and what is left when one closes.
use crate::commands::{is_saved, Command, CommandInputs, ViewState};
use crate::hierarchy::{
    first_project, first_showing, ids_distinct, lemma_activate, lemma_project_at, lemma_remember,
    lemma_window_of, project_at, remember, tabs_of, unshown, window_of, Project, Win,
    WorkspaceState,
};
use crate::layout::{
    lemma_minus, lemma_minus_order, lemma_rects_panes, lemma_split_divides_the_pane,
    lemma_with_split, rects, Layout, LayoutNode, PaneRect,
};
use crate::projects::{
    lemma_active_position, lemma_project_panes, lemma_tab_showing, other_tabs, place_in,
    project_panes, tab_showing, ProjectMoveDirection, TabMoveDirection,
};
use crate::tabs::{
    join_direction, lemma_close_tabs, lemma_heir, lemma_lone, lemma_shares, lemma_tabs_among,
    lemma_window_of_found, square_split,
};
use crate::types::{PaneId, ProjectId, Rect};
use vstd::prelude::*;

verus! {

pub(crate) proof fn lemma_owner(s: WorkspaceState, pane: PaneId, i: int)
    requires
        s.tabs_wf(),
        0 <= i < s.windows.len(),
        s.windows[i].layout.panes().contains(pane),
    ensures
        window_of(s.windows, pane) == Some(i),
{
    assert(s.windows[i].shows(pane));
    assert(first_showing(s.windows, pane, i));
    lemma_window_of(s.windows, pane, i);
}

proof fn lemma_place_of(projects: Seq<Project>, i: int)
    requires
        ids_distinct(projects),
        0 <= i < projects.len(),
    ensures
        project_at(projects, projects[i].id) == Some(i),
{
    assert(first_project(projects, projects[i].id, i));
    lemma_project_at(projects, projects[i].id, i);
}

/// Focusing a Pane shows its Tab in its Project and gives it the focus. A zoom in
/// that Tab goes with the focus, the Pane that had the focus is remembered, and so
/// is the Pane for its Project; the overview closes. Nothing moves.
pub proof fn lemma_focus_shows_the_pane(s: WorkspaceState, pane: PaneId, i: int, p: int)
    requires
        s.wf(),
        0 <= i < s.windows.len(),
        s.windows[i].layout.panes().contains(pane),
        0 <= p < s.projects.len(),
        s.projects[p].id == s.windows[i].project,
    ensures
        ({
            let t = s.focus_on(pane);
            &&& t.active_window == i
            &&& t.active_project == s.windows[i].project
            &&& t.windows.len() == s.windows.len()
            &&& t.windows[i].active == pane
            &&& t.windows[i].layout == s.windows[i].layout
            &&& t.windows[i].name == s.windows[i].name
            &&& t.windows[i].zoomed is Some <==> s.windows[i].zoomed is Some
            &&& t.windows[i].zoomed is Some ==> t.windows[i].zoomed == Some(pane)
            &&& forall|k: int|
                0 <= k < s.windows.len() && k != i ==> #[trigger] t.windows[k] == s.windows[k]
            &&& s.tab().active != pane ==> t.last_active_pane == Some(s.tab().active)
            &&& s.tab().active == pane ==> t.last_active_pane == s.last_active_pane
            &&& t.overview is None
            &&& t.projects.len() == s.projects.len()
            &&& t.projects[p].active_pane == Some(pane)
            &&& forall|k: int|
                0 <= k < s.projects.len() ==> (#[trigger] t.projects[k]).id == s.projects[k].id
                    && t.projects[k].name == s.projects[k].name && t.projects[k].root
                    == s.projects[k].root
        }),
{
    lemma_owner(s, pane, i);
    lemma_activate(s, i);
    let shown = s.activate(i);
    let project = s.windows[i].project;
    let left = remember(s.projects, s.tab().project, s.tab().active);
    lemma_remember(s.projects, s.tab().project, s.tab().active);
    lemma_remember(left, project, s.windows[i].active);
    lemma_remember(shown.projects, project, pane);
    assert(shown.projects[p].id == project) by {
        assert(left[p].id == s.projects[p].id);
        assert(shown.projects[p].id == left[p].id);
    }
    lemma_place_of(shown.projects, p);
    lemma_kept_names(s.projects, s.tab().project, s.tab().active);
    lemma_kept_names(left, project, s.windows[i].active);
    lemma_kept_names(shown.projects, project, pane);
}

proof fn lemma_kept_names(projects: Seq<Project>, id: ProjectId, pane: PaneId)
    ensures
        remember(projects, id, pane).len() == projects.len(),
        forall|k: int|
            0 <= k < projects.len() ==> {
                let q = #[trigger] remember(projects, id, pane)[k];
                q.id == projects[k].id && q.name == projects[k].name && q.root == projects[k].root
            },
{
    crate::hierarchy::lemma_project_at_found(projects, id);
}

/// A Pane that no Tab shows cannot get the focus: nothing changes.
pub proof fn lemma_unshown_pane_is_not_focused(s: WorkspaceState, pane: PaneId)
    requires
        unshown(s.windows, pane),
    ensures
        s.focus_on(pane) == s,
{
    lemma_window_of_found(s.windows, pane);
}

/// Focusing within the active Tab moves the focus there and nowhere else, and only
/// where the Tab shows the Pane.
pub proof fn lemma_focus_within_the_tab(s: WorkspaceState, pane: PaneId)
    requires
        s.wf(),
    ensures
        ({
            let t = s.focus_here(pane);
            &&& s.tab().layout.panes().contains(pane) ==> t.tab().active == pane
            &&& !s.tab().layout.panes().contains(pane) ==> t == s
            &&& t.active_window == s.active_window
            &&& t.tab().layout == s.tab().layout
            &&& t.tab().zoomed == s.tab().zoomed
            &&& s.tab().layout.panes().contains(pane) && s.tab().active != pane
                ==> t.last_active_pane == Some(s.tab().active)
        }),
{
}

/// Tabs and Panes are counted from one: the first Tab of a Project is its Tab 1,
/// and the first Pane of that Tab its Pane 1. Without a Pane, the one that has the
/// focus there is meant; a number that is not there names nothing.
pub proof fn lemma_places_are_counted_from_one(
    s: WorkspaceState,
    project: ProjectId,
    tab: u32,
    pane: u32,
)
    ensures
        ({
            let tabs = tabs_of(s.windows, project);
            &&& s.ordinal_target(project, tab, None) is Some <==> 1 <= tab <= tabs.len()
            &&& 1 <= tab <= tabs.len() ==> {
                let win = s.windows[tabs[tab - 1] as int];
                let panes = win.layout.panes();
                &&& s.ordinal_target(project, tab, None) == Some(win.active)
                &&& s.ordinal_target(project, tab, Some(pane)) is Some <==> 1 <= pane <= panes.len()
                &&& 1 <= pane <= panes.len() ==> s.ordinal_target(project, tab, Some(pane)) == Some(
                    panes[pane - 1],
                )
            }
            &&& !(1 <= tab <= tabs.len()) ==> s.ordinal_target(project, tab, Some(pane)) is None
        }),
{
}

/// The Tab bar lists every Tab of the Project and no other, in the order in which
/// they are kept.
pub proof fn lemma_tab_bar_lists_the_project(windows: Seq<Win>, project: ProjectId)
    requires
        windows.len() <= usize::MAX,
    ensures
        ({
            let tabs = tabs_of(windows, project);
            &&& forall|i: int|
                0 <= i < tabs.len() ==> #[trigger] tabs[i] < windows.len()
                    && windows[tabs[i] as int].project == project
            &&& forall|i: int, j: int|
                0 <= i < j < tabs.len() ==> #[trigger] tabs[i] < #[trigger] tabs[j]
            &&& forall|k: int|
                0 <= k < windows.len() && (#[trigger] windows[k]).project == project
                    ==> tabs.contains(k as usize)
        }),
{
    lemma_tabs_among(windows, project, windows.len());
    let tabs = tabs_of(windows, project);
    assert forall|k: int| 0 <= k < windows.len() && (#[trigger] windows[k]).project
        == project implies tabs.contains(k as usize) by {
        let i = choose|i: int| 0 <= i < tabs.len() && #[trigger] tabs[i] == k;
        assert(tabs[i] == k as usize);
    }
}

/// A Pane that moves into another Tab of its Project is shown there with the
/// focus, beside the Pane that had it, and no longer where it was. Every other
/// Pane stays in its Tab.
pub proof fn lemma_moved_pane_joins_the_tab(
    s: WorkspaceState,
    pane: PaneId,
    source: int,
    target: int,
    area: Rect,
)
    requires
        s.wf(),
        0 <= source < s.windows.len(),
        0 <= target < s.windows.len(),
        source != target,
        s.windows[source].layout.panes().contains(pane),
        s.windows[target].project == s.windows[source].project,
    ensures
        s.can_move(pane, target),
        ({
            let t = s.move_into(pane, target, area);
            let lone = s.windows[source].layout.panes().len() == 1;
            let at = if lone && source < target {
                target - 1
            } else {
                target
            };
            &&& t.active_window == at
            &&& t.windows[at].active == pane
            &&& t.windows[at].zoomed is None
            &&& t.windows[at].name == s.windows[target].name
            &&& t.windows[at].project == s.windows[target].project
            &&& t.active_project == s.windows[target].project
            &&& forall|q: PaneId| #[trigger]
                t.windows[at].layout.panes().contains(q) <==> q == pane
                    || s.windows[target].layout.panes().contains(q)
            &&& t.windows.len() == s.windows.len() - (if lone {
                1int
            } else {
                0int
            })
            &&& !lone ==> t.windows[source].layout.panes() == s.windows[source].layout.panes().filter(
                |q: PaneId| q != pane,
            )
            &&& t.last_active_pane is None
            &&& t.tab_scroll_follow_active
        }),
{
    lemma_owner(s, pane, source);
    let src = s.windows[source];
    let win = s.windows[target];
    assert(src.wf());
    assert(win.wf());
    assert(!win.shows(pane)) by {
        assert(src.shows(pane));
    }
    let panes = src.layout.panes();
    lemma_minus(src.layout, pane);
    lemma_minus_order(src.layout, pane);
    if panes.len() == 1 {
        lemma_lone(src, pane);
    } else {
        crate::layout::lemma_panes_nonempty(src.layout);
        lemma_shares(src, pane);
        assert((|q: PaneId| q != pane) =~= crate::layout::other_than(pane));
    }
    let at = s.target_after(source, target, pane);
    let mid = s.detach(source, pane);
    assert(mid.windows[at] == win);
    lemma_with_split(win.layout, win.active, join_direction(win, area), pane);
    assert(win.shows(win.active));
}

/// A Pane that is put beside another goes to its right where that one is at least
/// twice as wide as it is high, and below it where it is not.
pub proof fn lemma_beside_the_wide_below_the_tall(
    node: LayoutNode,
    at: PaneId,
    new: PaneId,
    area: Rect,
    k: int,
)
    requires
        area.fits(),
        node.panes().no_duplicates(),
        0 <= k < node.panes().len(),
        node.panes()[k] == at,
    ensures
        ({
            let r = rects(node, area)[k].rect;
            let out = rects(node.with_split(at, square_split(r), new), area);
            let a = out[k].rect;
            let b = out[k + 1].rect;
            &&& out[k + 1].pane == new
            &&& r.w >= 2 * r.h ==> a.h == r.h && b.h == r.h && a.right() <= b.x
            &&& r.w < 2 * r.h ==> a.w == r.w && b.w == r.w && a.bottom() <= b.y
            &&& Layout::place(rects(node, area), at) == Some(r)
        }),
{
    let r = rects(node, area)[k].rect;
    lemma_split_divides_the_pane(node, at, square_split(r), new, area, k);
    lemma_rects_panes(node, area);
    lemma_place(rects(node, area), at, k);
}

proof fn lemma_place(list: Seq<PaneRect>, pane: PaneId, k: int)
    requires
        0 <= k < list.len(),
        list[k].pane == pane,
        forall|i: int, j: int|
            0 <= i < j < list.len() ==> (#[trigger] list[i]).pane != (#[trigger] list[j]).pane,
    ensures
        Layout::place(list, pane) == Some(list[k].rect),
    decreases list.len(),
{
    if k > 0 {
        assert(list[0].pane != list[k].pane);
        let rest = list.drop_first();
        assert forall|i: int, j: int| 0 <= i < j < rest.len() implies (#[trigger] rest[i]).pane != (
        #[trigger] rest[j]).pane by {
            assert(list[i + 1].pane != list[j + 1].pane);
        }
        lemma_place(rest, pane, k - 1);
    }
}

/// A Pane that moves out of a Tab it shares gets a Tab of its own right after it,
/// in the same Project, and is shown there; the Tab that it leaves keeps the rest
/// in order.
pub proof fn lemma_moved_out_pane_has_its_own_tab(s: WorkspaceState, pane: PaneId, source: int)
    requires
        s.wf(),
        0 <= source < s.windows.len(),
        s.windows[source].layout.panes().contains(pane),
        s.windows[source].layout.panes().len() >= 2,
    ensures
        s.can_move_out(pane),
        ({
            let t = s.move_out(pane);
            &&& t.windows.len() == s.windows.len() + 1
            &&& t.active_window == source + 1
            &&& t.windows[source + 1].layout == LayoutNode::Leaf(pane)
            &&& t.windows[source + 1].active == pane
            &&& t.windows[source + 1].zoomed is None
            &&& t.windows[source + 1].name is None
            &&& t.windows[source + 1].project == s.windows[source].project
            &&& t.active_project == s.windows[source].project
            &&& t.windows[source].layout.panes() == s.windows[source].layout.panes().filter(
                |q: PaneId| q != pane,
            )
            &&& t.windows[source].name == s.windows[source].name
            &&& forall|k: int| 0 <= k < source ==> #[trigger] t.windows[k] == s.windows[k]
            &&& forall|k: int|
                source < k < s.windows.len() ==> t.windows[k + 1] == #[trigger] s.windows[k]
        }),
{
    lemma_owner(s, pane, source);
    let src = s.windows[source];
    assert(src.wf());
    lemma_minus_order(src.layout, pane);
    lemma_shares(src, pane);
    assert((|q: PaneId| q != pane) =~= crate::layout::other_than(pane));
}

/// A Pane that is alone in its Tab cannot move out of it, and none can move into
/// its own Tab or into a Tab of another Project.
pub proof fn lemma_moves_that_are_refused(s: WorkspaceState, pane: PaneId, source: int, target: int)
    requires
        s.wf(),
        0 <= source < s.windows.len(),
        s.windows[source].layout.panes().contains(pane),
    ensures
        s.windows[source].layout.panes().len() == 1 ==> !s.can_move_out(pane),
        target == source ==> !s.can_move(pane, target),
        0 <= target < s.windows.len() && s.windows[target].project != s.windows[source].project
            ==> !s.can_move(pane, target),
        !(0 <= target < s.windows.len()) ==> !s.can_move(pane, target),
{
    lemma_owner(s, pane, source);
}

/// Closing a Pane that is not shown leaves the same Tab active. Where the active
/// Tab goes with its last Pane, another Tab of the same Project is shown as long
/// as there is one.
pub proof fn lemma_closing_keeps_to_the_project(s: WorkspaceState, pane: PaneId, w: int)
    requires
        s.wf(),
        s.windows.len() <= usize::MAX,
        0 <= w < s.windows.len(),
        s.windows[w].layout.panes().contains(pane),
    ensures
        ({
            let t = s.close(pane);
            let done = s.closing(pane);
            let lone = s.windows[w].layout.panes().len() == 1;
            let others = exists|k: int|
                0 <= k < s.windows.len() && k != w && (#[trigger] s.windows[k]).project
                    == s.windows[w].project;
            &&& done.stopped <==> lone && s.windows.len() == 1
            &&& w != s.active_window ==> t.windows[t.active_window] == s.windows[s.active_window]
                && t.active_project == s.active_project
            &&& w == s.active_window && (!lone || others) ==> t.active_project == s.active_project
            &&& done.removed_project is Some ==> done.removed_project == Some(s.windows[w].project)
            &&& done.removed_project is Some <==> lone && !others && s.projects.len() > 1
            &&& done.project_changed <==> !done.stopped && t.active_project != s.active_project
        }),
{
    lemma_owner(s, pane, w);
    lemma_close_tabs(s, pane);
    let win = s.windows[w];
    assert(win.wf());
    let project = win.project;
    lemma_minus(win.layout, pane);
    crate::layout::lemma_panes_nonempty(win.layout);
    let lone = win.layout.panes().len() == 1;
    if lone {
        lemma_lone(win, pane);
    } else {
        lemma_shares(win, pane);
    }
    let rest = s.windows_without(pane);
    lemma_tabs_among(s.windows, project, s.windows.len());
    let tabs = tabs_of(s.windows, project);
    let others = exists|k: int|
        0 <= k < s.windows.len() && k != w && (#[trigger] s.windows[k]).project == project;
    let here = choose|i: int| 0 <= i < tabs.len() && #[trigger] tabs[i] == w;
    assert(tabs.len() == 1 <==> !others) by {
        if others {
            let k = choose|k: int|
                0 <= k < s.windows.len() && k != w && (#[trigger] s.windows[k]).project == project;
            let i = choose|i: int| 0 <= i < tabs.len() && #[trigger] tabs[i] == k;
            assert(i != here);
        } else if tabs.len() > 1 {
            let i = if here == 0 {
                1int
            } else {
                0int
            };
            assert(tabs[i] != tabs[here]);
            assert(s.windows[tabs[i] as int].project == project);
        }
    }
    crate::hierarchy::lemma_project_at_found(s.projects, project);
    assert(crate::hierarchy::known(s.projects, win.project));
    if lone && rest.len() > 0 {
        lemma_heir(rest, project, w);
        if others {
            let k = choose|k: int|
                0 <= k < s.windows.len() && k != w && (#[trigger] s.windows[k]).project == project;
            if k < w {
                assert(rest[k].project == project);
            } else {
                assert(rest[k - 1].project == project);
            }
        }
    }
}

/// Switching to another Project shows the Tab with the Pane that it was left at;
/// where that Pane is gone, its first Tab. A Project without a Tab, and the one
/// that is active, change nothing.
pub proof fn lemma_project_is_entered_where_it_was_left(
    s: WorkspaceState,
    p: int,
    k: int,
)
    requires
        s.wf(),
        s.windows.len() <= usize::MAX,
        0 <= p < s.projects.len(),
        s.projects[p].id != s.active_project,
        0 <= k < s.windows.len(),
        s.windows[k].project == s.projects[p].id,
    ensures
        ({
            let project = s.projects[p].id;
            let t = s.switch_to(project);
            &&& t.active_project == project
            &&& t.windows == s.windows
            &&& t.windows[t.active_window].project == project
            &&& t.overview is None
            &&& t.tab_scroll == 0
            &&& t.project_scroll == p
            &&& s.projects[p].active_pane is Some && s.windows[k].layout.panes().contains(
                s.projects[p].active_pane->0,
            ) ==> t.active_window == k
            &&& (s.projects[p].active_pane is None || unshown(
                s.windows,
                s.projects[p].active_pane->0,
            )) ==> t.active_window <= k
            &&& s.switch_to(s.active_project) == s
        }),
{
    let project = s.projects[p].id;
    lemma_place_of(s.projects, p);
    let tabs = tabs_of(s.windows, project);
    lemma_tabs_among(s.windows, project, s.windows.len());
    let i = choose|i: int| 0 <= i < tabs.len() && #[trigger] tabs[i] == k;
    assert(tabs[i] == k);
    assert(tabs[0] <= k) by {
        if i > 0 {
            assert(tabs[0] < tabs[i]);
        }
    }
    if let Some(pane) = s.projects[p].active_pane {
        lemma_tab_showing(s.windows, tabs, pane);
        if s.windows[k].layout.panes().contains(pane) {
            lemma_shown_tab_found(s, tabs, pane, i);
        }
        if unshown(s.windows, pane) {
            if let Some(found) = tab_showing(s.windows, tabs, pane) {
                let j = choose|j: int| 0 <= j < tabs.len() && tabs[j] == found;
                assert(0 <= tabs[j] < s.windows.len());
                assert(!s.windows[found as int].shows(pane));
            }
        }
        if let Some(found) = tab_showing(s.windows, tabs, pane) {
            let j = choose|j: int| 0 <= j < tabs.len() && tabs[j] == found;
            assert(0 <= tabs[j] < s.windows.len());
            assert(s.windows[tabs[j] as int].project == project);
        }
    }
    assert(s.windows[tabs[0] as int].project == project);
    let index = s.entry_tab(project)->0 as int;
    assert(0 <= index < s.windows.len());
    lemma_activate(s, index);
    let left = remember(s.projects, s.tab().project, s.tab().active);
    lemma_remember(s.projects, s.tab().project, s.tab().active);
    assert(left[p].id == project);
    lemma_place_of(left, p);
}

proof fn lemma_shown_tab_found(s: WorkspaceState, tabs: Seq<usize>, pane: PaneId, i: int)
    requires
        s.tabs_wf(),
        0 <= i < tabs.len(),
        forall|j: int| 0 <= j < tabs.len() ==> 0 <= #[trigger] tabs[j] < s.windows.len(),
        s.windows[tabs[i] as int].shows(pane),
    ensures
        tab_showing(s.windows, tabs, pane) == Some(tabs[i]),
    decreases tabs.len(),
{
    if s.windows[tabs[0] as int].shows(pane) {
        assert(tabs[0] == tabs[i]);
    } else {
        let rest = tabs.drop_first();
        assert forall|j: int| 0 <= j < rest.len() implies 0 <= #[trigger] rest[j]
            < s.windows.len() by {
            assert(tabs[j + 1] < s.windows.len());
        }
        assert(rest[i - 1] == tabs[i]);
        lemma_shown_tab_found(s, rest, pane, i - 1);
    }
}

/// A new Project has an id that none had, the name and folder it was given, and
/// one Tab with one Pane, which is shown; it comes last, and the others stay.
pub proof fn lemma_new_project_is_shown(s: WorkspaceState, name: String, root: String, pane: PaneId)
    requires
        s.wf(),
        unshown(s.windows, pane),
        s.next_project_id < u64::MAX,
        0 <= s.next_project_id,
    ensures
        ({
            let t = s.add_project(name, root, pane);
            let n = s.projects.len() as int;
            let id = t.projects[n].id;
            &&& t.projects.len() == n + 1
            &&& t.projects[n].name == name
            &&& t.projects[n].root == root
            &&& t.projects[n].active_pane == Some(pane)
            &&& id.0 == s.next_project_id
            &&& t.next_project_id == s.next_project_id + 1
            &&& forall|k: int| 0 <= k < n ==> (#[trigger] t.projects[k]).id != id
            &&& forall|k: int|
                0 <= k < n ==> (#[trigger] t.projects[k]).id == s.projects[k].id
                    && t.projects[k].name == s.projects[k].name && t.projects[k].root
                    == s.projects[k].root
            &&& t.windows.len() == s.windows.len() + 1
            &&& t.active_window == s.windows.len()
            &&& t.active_project == id
            &&& t.windows.last().layout == LayoutNode::Leaf(pane)
            &&& t.windows.last().project == id
            &&& t.windows.last().active == pane
            &&& forall|k: int|
                0 <= k < s.windows.len() ==> #[trigger] t.windows[k] == s.windows[k]
        }),
{
    let n = s.projects.len() as int;
    let id = ProjectId(s.next_project_id as u64);
    let grown = s.projects.push(Project { id, name, root, active_pane: Some(pane) });
    assert forall|i: int, j: int| 0 <= i < j < grown.len() implies (#[trigger] grown[i]).id != (
    #[trigger] grown[j]).id by {
        if j == n {
            assert(s.projects[i].id.0 < s.next_project_id);
        }
    }
    let left = remember(grown, s.tab().project, s.tab().active);
    lemma_remember(grown, s.tab().project, s.tab().active);
    lemma_kept_names(grown, s.tab().project, s.tab().active);
    lemma_kept_names(left, id, pane);
    assert(left[n].id == id);
    lemma_place_of(left, n);
    let t = s.add_project(name, root, pane);
    assert(t.windows.last() == Win::single(id, pane, None));
    assert forall|k: int| 0 <= k < n implies (#[trigger] t.projects[k]).id == s.projects[k].id
        && t.projects[k].id != id by {
        assert(t.projects[k].id == left[k].id);
        assert(left[k].id == grown[k].id);
        assert(grown[k].id != grown[n].id);
    }
}

/// A Project moves one place up or down the rail and changes places with the one
/// there; at the end of the rail it stays.
pub proof fn lemma_project_changes_places(
    s: WorkspaceState,
    p: int,
    direction: ProjectMoveDirection,
)
    requires
        s.wf(),
        0 <= p < s.projects.len(),
    ensures
        ({
            let t = s.move_project(s.projects[p].id, direction);
            let to = if direction is Up {
                p - 1
            } else {
                p + 1
            };
            &&& t.windows == s.windows
            &&& t.active_project == s.active_project
            &&& !(0 <= to < s.projects.len()) ==> t == s
            &&& 0 <= to < s.projects.len() ==> {
                &&& t.projects.len() == s.projects.len()
                &&& t.projects[to] == s.projects[p]
                &&& t.projects[p] == s.projects[to]
                &&& forall|k: int|
                    0 <= k < s.projects.len() && k != p && k != to ==> #[trigger] t.projects[k]
                        == s.projects[k]
            }
        }),
{
    lemma_place_of(s.projects, p);
}

/// A Tab moves one place along its Project's Tab bar, round its ends, and changes
/// places with the Tab there; it stays the one that is shown.
pub proof fn lemma_tab_changes_places(s: WorkspaceState, at: int, direction: TabMoveDirection)
    requires
        s.wf(),
        s.windows.len() <= usize::MAX,
        0 <= at < tabs_of(s.windows, s.active_project).len(),
        tabs_of(s.windows, s.active_project)[at] == s.active_window,
        tabs_of(s.windows, s.active_project).len() >= 2,
    ensures
        ({
            let tabs = tabs_of(s.windows, s.active_project);
            let n = tabs.len() as int;
            let to = if direction is Next {
                if at == n - 1 {
                    0
                } else {
                    at + 1
                }
            } else {
                if at == 0 {
                    n - 1
                } else {
                    at - 1
                }
            };
            let t = s.move_tab(direction);
            &&& s.tab_move(direction) == Some(to)
            &&& t.windows.len() == s.windows.len()
            &&& t.windows[tabs[to] as int] == s.windows[tabs[at] as int]
            &&& t.windows[tabs[at] as int] == s.windows[tabs[to] as int]
            &&& forall|k: int|
                0 <= k < s.windows.len() && k != tabs[at] && k != tabs[to]
                    ==> #[trigger] t.windows[k] == s.windows[k]
            &&& t.active_window == tabs[to]
            &&& t.active_project == s.active_project
        }),
{
    let tabs = tabs_of(s.windows, s.active_project);
    lemma_active_position(s);
    lemma_tabs_among(s.windows, s.active_project, s.windows.len());
    assert(place_in(tabs, s.active_window, at));
    assert(s.active_position() == at);
}

/// What goes with a Project is every Pane of its Tabs and no other; what stays is
/// every other Tab, in order.
pub proof fn lemma_removed_project_takes_its_own(windows: Seq<Win>, project: ProjectId)
    ensures
        forall|q: PaneId| #[trigger]
            project_panes(windows, project).contains(q) <==> exists|i: int|
                0 <= i < windows.len() && (#[trigger] windows[i]).project == project
                    && windows[i].layout.panes().contains(q),
        other_tabs(windows, project) == windows.filter(|w: Win| w.project != project),
{
    lemma_project_panes(windows, project);
    lemma_other_tabs_filter(windows, project);
    assert forall|q: PaneId| #[trigger] project_panes(windows, project).contains(q) <==> exists|i: int|
        0 <= i < windows.len() && (#[trigger] windows[i]).project == project
            && windows[i].layout.panes().contains(q) by {
        if exists|i: int|
            0 <= i < windows.len() && (#[trigger] windows[i]).project == project
                && windows[i].layout.panes().contains(q) {
            let i = choose|i: int|
                0 <= i < windows.len() && (#[trigger] windows[i]).project == project
                    && windows[i].layout.panes().contains(q);
            assert(windows[i].shows(q));
        }
        if project_panes(windows, project).contains(q) {
            let i = choose|i: int|
                0 <= i < windows.len() && (#[trigger] windows[i]).project == project
                    && windows[i].shows(q);
            assert(windows[i].layout.panes().contains(q));
        }
    }
}

proof fn lemma_other_tabs_filter(windows: Seq<Win>, project: ProjectId)
    ensures
        other_tabs(windows, project) == windows.filter(|w: Win| w.project != project),
    decreases windows.len(),
{
    reveal(Seq::filter);
    if windows.len() > 0 {
        lemma_other_tabs_filter(windows.drop_last(), project);
    }
}

/// Leaving a Tab remembers its focused Pane for its Project, and showing one
/// remembers that Tab's.
pub proof fn lemma_shown_tab_is_remembered(s: WorkspaceState, index: int, p: int, q: int)
    requires
        s.wf(),
        0 <= index < s.windows.len(),
        0 <= p < s.projects.len(),
        0 <= q < s.projects.len(),
        s.projects[p].id == s.windows[index].project,
        s.projects[q].id == s.active_project,
    ensures
        ({
            let t = s.activate(index);
            &&& t.active_window == index
            &&& t.active_project == s.windows[index].project
            &&& t.windows == s.windows
            &&& t.projects[p].active_pane == Some(s.windows[index].active)
            &&& p != q ==> t.projects[q].active_pane == Some(s.tab().active)
            &&& forall|k: int|
                0 <= k < s.projects.len() && k != p && k != q ==> #[trigger] t.projects[k]
                    == s.projects[k]
            &&& s.active_window != index ==> t.tab_scroll_follow_active
            &&& p != q ==> t.tab_scroll == 0 && t.project_scroll == p
            &&& p == q ==> t.tab_scroll == s.tab_scroll && t.project_scroll == s.project_scroll
        }),
{
    lemma_place_of(s.projects, q);
    let left = remember(s.projects, s.tab().project, s.tab().active);
    lemma_remember(s.projects, s.tab().project, s.tab().active);
    assert(left[p].id == s.projects[p].id);
    lemma_place_of(left, p);
}

/// The overview opens on the Tab that is shown, and the same command closes it
/// again; nothing else changes.
pub proof fn lemma_overview_opens_and_closes(s: WorkspaceState, inputs: CommandInputs)
    requires
        s.wf(),
        s.windows.len() <= usize::MAX,
        tabs_of(s.windows, s.active_project).len() <= usize::MAX,
    ensures
        ({
            let t = s.commanded(Command::Overview, inputs);
            let tabs = tabs_of(s.windows, s.active_project);
            &&& s.overview is Some ==> t.overview is None
            &&& s.overview is None ==> t.overview is Some && t.overview->0 < tabs.len()
                && tabs[t.overview->0 as int] == s.active_window
            &&& t.windows == s.windows && t.projects == s.projects
            &&& t.active_window == s.active_window && t.active_project == s.active_project
            &&& s.overview is None ==> t.commanded(Command::Overview, inputs) == s
        }),
{
    lemma_active_position(s);
    assert(place_in(
        tabs_of(s.windows, s.active_project),
        s.active_window,
        s.active_position(),
    ));
}

/// What a command moved is laid out anew; the settings keep what it switched of
/// the sidebars and nothing else; and only the commands that open a Pane use one.
pub proof fn lemma_what_a_command_moved_is_laid_out(
    s: WorkspaceState,
    view: ViewState,
    cmd: Command,
    inputs: CommandInputs,
    other: CommandInputs,
)
    requires
        other.neighbor == inputs.neighbor && other.resized == inputs.resized,
    ensures
        s.commanded(cmd, inputs) != s && !(cmd is Overview) && !(cmd is KillPane) ==> s.moves(
            cmd,
            inputs,
        ),
        view.commanded(cmd).sidebar != view.sidebar ==> s.moves(cmd, inputs),
        view.commanded(cmd).file_sidebar != view.file_sidebar ==> s.moves(cmd, inputs),
        cmd is CopyMode || cmd is Overview ==> !s.moves(cmd, inputs),
        is_saved(cmd) <==> view.commanded(cmd).sidebar != view.sidebar || view.commanded(
            cmd,
        ).file_sidebar != view.file_sidebar || view.commanded(cmd).observatory_tab
            != view.observatory_tab,
        !cmd.spawns() ==> s.commanded(cmd, inputs) == s.commanded(cmd, other),
        cmd.spawns() && inputs.spawned is None ==> s.commanded(cmd, inputs) == s,
        cmd.spawns() <==> cmd is Split || cmd is NewWindow,
{
}

/// Closing a Tab closes its Panes one after the other and no other Pane.
pub proof fn lemma_closed_panes_are_gone(
    s: WorkspaceState,
    panes: Seq<PaneId>,
    n: nat,
    k: int,
    q: PaneId,
)
    requires
        s.wf(),
        s.windows.len() <= usize::MAX,
        n <= panes.len(),
    ensures
        ({
            let t = s.close_all(panes, n);
            &&& t.windows.len() > 0 ==> t.wf()
            &&& t.windows.len() <= s.windows.len()
            &&& t.windows.len() > 0 && 0 <= k < n ==> unshown(t.windows, panes[k])
            &&& t.windows.len() == 0 ==> unshown(t.windows, q)
            &&& t.windows.len() > 0 && !panes.take(n as int).contains(q) ==> (unshown(t.windows, q)
                <==> unshown(s.windows, q))
        }),
    decreases n,
{
    if n > 0 {
        let before = s.close_all(panes, (n - 1) as nat);
        lemma_closed_panes_are_gone(s, panes, (n - 1) as nat, k, q);
        if before.windows.len() > 0 {
            let pane = panes[n - 1];
            lemma_close_tabs(before, pane);
            crate::tabs::lemma_close(before, pane);
            let t = before.close(pane);
            if 0 <= k < n - 1 && panes[k] != pane {
                assert(unshown(before.windows, panes[k]));
                assert(unshown(before.windows_without(pane), panes[k]));
            }
            if !panes.take(n as int).contains(q) {
                assert(q != pane) by {
                    if q == pane {
                        assert(panes.take(n as int)[n - 1] == q);
                    }
                }
                let head = panes.take(n - 1);
                assert(!head.contains(q)) by {
                    if head.contains(q) {
                        let j = choose|j: int| 0 <= j < head.len() && head[j] == q;
                        assert(panes.take(n as int)[j] == q);
                    }
                }
                assert(unshown(before.windows_without(pane), q) == unshown(before.windows, q));
            }
        }
    }
}

} // verus!
