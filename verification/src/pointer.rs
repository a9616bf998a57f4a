//! Where a mouse event goes: the status line, the sidebars, the overview, a
//! divider, or the Pane under the pointer.
use crate::canvas::{Canvas, FileSidebarRows};
use crate::commands::ObservatoryTab;
use crate::hierarchy::{lemma_activate, window_of, Win, Workspace, WorkspaceState};
use crate::layout::{Divider, PaneRect};
use crate::menu::{handle_context_mouse, menu_event, MenuMouse, MenuSpot};
use crate::mouse::MouseKind;
use crate::rail::CardSlot;
use crate::status::{ObservatorySlot, TabBarLayout};
use crate::tabs::lemma_window_of_found;
use crate::types::{PaneId, ProjectId, Rect};
use vstd::prelude::*;

verus! {

/// What of the screen a mouse event is held against.
#[derive(Debug)]
pub struct PointerView {
    pub canvas: Canvas,
    /// The cells that the Workspace's name takes.
    pub name_width: usize,
    pub status_at_bottom: bool,
    pub bar: TabBarLayout,
    pub slots: Vec<ObservatorySlot>,
    pub observatory_tab: ObservatoryTab,
    pub project_slots: Vec<CardSlot>,
    pub agent_slots: Vec<CardSlot>,
    pub agents: usize,
    pub agent_actions: Vec<Rect>,
    pub agent_scope_x: u16,
    pub agent_scope_width: u16,
    pub server_slots: Vec<CardSlot>,
    pub servers: usize,
    pub server_scope_x: u16,
    pub server_scope_width: u16,
    pub file_rows: FileSidebarRows,
    pub tiles: Vec<Rect>,
    pub panes: Vec<PaneRect>,
    pub dividers: Vec<Divider>,
    /// The Panes whose programs track the mouse.
    pub tracking: Vec<PaneId>,
    /// Right clicks may go to programs.
    pub pane_right_click: bool,
    /// A hover moves the focus.
    pub focus_follows: bool,
    pub menu_open: bool,
    pub toast: bool,
    pub divider_drag: Option<Divider>,
    /// A press may still become a text selection.
    pub armed: bool,
    /// The Pane whose button back to the live screen is under the pointer.
    pub latest: Option<PaneId>,
}

/// What a mouse event asks for.
#[derive(Clone, Copy, Debug, PartialEq, Eq, Structural)]
pub enum MouseStep {
    Nothing,
    WorkspaceMenu { anchor: Rect, above: bool },
    SelectObservatory(ObservatoryTab),
    NewTab,
    ScrollTabs { up: bool },
    /// Show the Tab at this position of the Tab bar, and its menu.
    ShowTab { position: usize, menu: Option<Rect> },
    ProjectsMenu { anchor: Rect, above: bool },
    ProjectMenu { project: ProjectId, anchor: Rect, above: bool },
    ForwardRightClick(PaneId),
    OpenContextMenu(MenuSpot),
    /// An event over the open menu.
    ContextMenu(MenuMouse),
    AgentAction(usize),
    ToggleScope(ObservatoryTab),
    ScrollObservatory { tab: ObservatoryTab, up: bool },
    ShowAgent(usize),
    WheelFiles { up: bool },
    ClickFile(usize),
    FocusFiles,
    OpenServer(usize),
    ScrollProjects { up: bool },
    SwitchProject(ProjectId),
    HoverTile(usize),
    ClickTile(usize),
    OpenToast,
    DragDivider(Divider),
    DropDivider,
    GrabDivider(Divider),
    ResumeLive(PaneId),
    /// The event goes to a selection that is under way, else to the Pane under
    /// the pointer.
    Pane { pane: Option<PaneId>, step: PaneStep },
}

pub open spec fn is_wheel(kind: MouseKind) -> bool {
    kind == MouseKind::WheelUp || kind == MouseKind::WheelDown
}

/// The first of these rectangles, from `i` on, under the pointer.
pub open spec fn rect_hit(list: Seq<Rect>, cx: int, cy: int, i: int) -> Option<int>
    decreases list.len() - i,
{
    if i < 0 || i >= list.len() {
        None
    } else if list[i].has_cell(cx, cy) {
        Some(i)
    } else {
        rect_hit(list, cx, cy, i + 1)
    }
}

fn find_rect(list: &Vec<Rect>, cx: u16, cy: u16) -> (found: Option<usize>)
    ensures
        crate::hierarchy::index_of(found) == rect_hit(list@, cx as int, cy as int, 0),
        found matches Some(i) ==> i < list@.len(),
{
    let mut i: usize = 0;
    while i < list.len()
        invariant
            i <= list@.len(),
            rect_hit(list@, cx as int, cy as int, 0) == rect_hit(
                list@,
                cx as int,
                cy as int,
                i as int,
            ),
        decreases list@.len() - i,
    {
        if list[i].contains(cx, cy) {
            return Some(i);
        }
        i += 1;
    }
    None
}

/// The first slot, from `i` on, under the pointer.
pub open spec fn slot_hit(list: Seq<CardSlot>, cx: int, cy: int, i: int) -> Option<CardSlot>
    decreases list.len() - i,
{
    if i < 0 || i >= list.len() {
        None
    } else if list[i].rect.has_cell(cx, cy) {
        Some(list[i])
    } else {
        slot_hit(list, cx, cy, i + 1)
    }
}

fn find_slot(list: &Vec<CardSlot>, cx: u16, cy: u16) -> (found: Option<CardSlot>)
    ensures
        found == slot_hit(list@, cx as int, cy as int, 0),
{
    let mut i: usize = 0;
    while i < list.len()
        invariant
            i <= list@.len(),
            slot_hit(list@, cx as int, cy as int, 0) == slot_hit(
                list@,
                cx as int,
                cy as int,
                i as int,
            ),
        decreases list@.len() - i,
    {
        if list[i].rect.contains(cx, cy) {
            return Some(list[i]);
        }
        i += 1;
    }
    None
}

/// The first slot, from `i` on, with the pointer in its rows.
pub open spec fn row_hit(list: Seq<CardSlot>, cy: int, i: int) -> Option<CardSlot>
    decreases list.len() - i,
{
    if i < 0 || i >= list.len() {
        None
    } else if list[i].rect.y <= cy < list[i].rect.bottom() {
        Some(list[i])
    } else {
        row_hit(list, cy, i + 1)
    }
}

/// The card with the pointer in its rows.
pub fn card_at(list: &Vec<CardSlot>, cy: u16) -> (found: Option<CardSlot>)
    ensures
        found == row_hit(list@, cy as int, 0),
{
    let mut i: usize = 0;
    while i < list.len()
        invariant
            i <= list@.len(),
            row_hit(list@, cy as int, 0) == row_hit(list@, cy as int, i as int),
        decreases list@.len() - i,
    {
        let rect = list[i].rect;
        if cy >= rect.y && cy - rect.y < rect.h {
            return Some(list[i]);
        }
        i += 1;
    }
    None
}

/// The first tab of the right sidebar, from `i` on, under the pointer.
pub open spec fn tab_hit(list: Seq<ObservatorySlot>, cx: int, cy: int, i: int) -> Option<
    ObservatoryTab,
>
    decreases list.len() - i,
{
    if i < 0 || i >= list.len() {
        None
    } else if list[i].rect.has_cell(cx, cy) {
        Some(list[i].tab)
    } else {
        tab_hit(list, cx, cy, i + 1)
    }
}

fn find_tab(list: &Vec<ObservatorySlot>, cx: u16, cy: u16) -> (found: Option<ObservatoryTab>)
    ensures
        found == tab_hit(list@, cx as int, cy as int, 0),
{
    let mut i: usize = 0;
    while i < list.len()
        invariant
            i <= list@.len(),
            tab_hit(list@, cx as int, cy as int, 0) == tab_hit(
                list@,
                cx as int,
                cy as int,
                i as int,
            ),
        decreases list@.len() - i,
    {
        if list[i].rect.contains(cx, cy) {
            return Some(list[i].tab);
        }
        i += 1;
    }
    None
}

/// The first Pane, from `i` on, under the pointer.
pub open spec fn pane_hit(list: Seq<PaneRect>, cx: int, cy: int, i: int) -> Option<PaneId>
    decreases list.len() - i,
{
    if i < 0 || i >= list.len() {
        None
    } else if list[i].rect.has_cell(cx, cy) {
        Some(list[i].pane)
    } else {
        pane_hit(list, cx, cy, i + 1)
    }
}

pub(crate) fn find_pane(list: &Vec<PaneRect>, cx: u16, cy: u16) -> (found: Option<PaneId>)
    ensures
        found == pane_hit(list@, cx as int, cy as int, 0),
{
    let mut i: usize = 0;
    while i < list.len()
        invariant
            i <= list@.len(),
            pane_hit(list@, cx as int, cy as int, 0) == pane_hit(
                list@,
                cx as int,
                cy as int,
                i as int,
            ),
        decreases list@.len() - i,
    {
        if list[i].rect.contains(cx, cy) {
            return Some(list[i].pane);
        }
        i += 1;
    }
    None
}

/// The first divider, from `i` on, under the pointer.
pub open spec fn divider_hit(list: Seq<Divider>, cx: int, cy: int, i: int) -> Option<Divider>
    decreases list.len() - i,
{
    if i < 0 || i >= list.len() {
        None
    } else if list[i].rect.has_cell(cx, cy) {
        Some(list[i])
    } else {
        divider_hit(list, cx, cy, i + 1)
    }
}

fn find_divider(list: &Vec<Divider>, cx: u16, cy: u16) -> (found: Option<Divider>)
    ensures
        found == divider_hit(list@, cx as int, cy as int, 0),
{
    let mut i: usize = 0;
    while i < list.len()
        invariant
            i <= list@.len(),
            divider_hit(list@, cx as int, cy as int, 0) == divider_hit(
                list@,
                cx as int,
                cy as int,
                i as int,
            ),
        decreases list@.len() - i,
    {
        if list[i].rect.contains(cx, cy) {
            return Some(list[i]);
        }
        i += 1;
    }
    None
}

/// An optional rectangle is there and has the cell.
pub open spec fn on(rect: Option<Rect>, cx: int, cy: int) -> bool {
    rect matches Some(r) && r.has_cell(cx, cy)
}

fn is_on(rect: &Option<Rect>, cx: u16, cy: u16) -> (hit: bool)
    ensures
        hit == on(*rect, cx as int, cy as int),
{
    match rect {
        Some(r) => r.contains(cx, cy),
        None => false,
    }
}

impl PointerView {
    /// What an event on the status line asks for; `None` off it.
    pub open spec fn status_step(self, cx: int, cy: int, kind: MouseKind) -> Option<MouseStep> {
        let click = kind == MouseKind::Click;
        let button = self.canvas.button_width(self.name_width as int);
        if !(self.canvas.chrome().status_row matches Some(row) && row == cy) {
            None
        } else if click && cx < button {
            Some(
                MouseStep::WorkspaceMenu {
                    anchor: Rect { x: 0, y: cy as u16, w: button as u16, h: 1 },
                    above: self.status_at_bottom,
                },
            )
        } else if click && tab_hit(self.slots@, cx, cy, 0) is Some {
            Some(MouseStep::SelectObservatory(tab_hit(self.slots@, cx, cy, 0).unwrap()))
        } else if click && on(self.bar.new_tab, cx, cy) {
            Some(MouseStep::NewTab)
        } else if click && on(self.bar.scroll_left, cx, cy) {
            Some(MouseStep::ScrollTabs { up: true })
        } else if click && on(self.bar.scroll_right, cx, cy) {
            Some(MouseStep::ScrollTabs { up: false })
        } else if is_wheel(kind) && cx >= button && cx < crate::canvas::less(
            self.canvas.cols as int,
            self.canvas.right(),
        ) {
            Some(MouseStep::ScrollTabs { up: kind == MouseKind::WheelUp })
        } else {
            Some(
                match slot_hit(self.bar.tabs@, cx, cy, 0) {
                    Some(slot) => if click {
                        MouseStep::ShowTab { position: slot.item, menu: None }
                    } else if kind == MouseKind::RightClick {
                        MouseStep::ShowTab { position: slot.item, menu: Some(slot.rect) }
                    } else {
                        MouseStep::Nothing
                    },
                    None => MouseStep::Nothing,
                },
            )
        }
    }

    /// Route an event on the status line: each control answers the button that
    /// it is for, and nothing there reaches a Pane.
    pub fn handle_status_mouse(&self, cx: u16, cy: u16, kind: MouseKind) -> (step: Option<MouseStep>)
        ensures
            step == self.status_step(cx as int, cy as int, kind),
    {
        let click = kind == MouseKind::Click;
        match self.canvas.chrome_area().status_row {
            Some(row) => {
                if row != cy {
                    return None;
                }
            },
            None => {
                return None;
            },
        }
        let button: u16 = self.canvas.workspace_button_width(self.name_width);
        if click {
            if cx < button {
                return Some(
                    MouseStep::WorkspaceMenu {
                        anchor: Rect::new(0, cy, button, 1),
                        above: self.status_at_bottom,
                    },
                );
            }
            if let Some(tab) = find_tab(&self.slots, cx, cy) {
                return Some(MouseStep::SelectObservatory(tab));
            }
            if is_on(&self.bar.new_tab, cx, cy) {
                return Some(MouseStep::NewTab);
            }
            if is_on(&self.bar.scroll_left, cx, cy) {
                return Some(MouseStep::ScrollTabs { up: true });
            }
            if is_on(&self.bar.scroll_right, cx, cy) {
                return Some(MouseStep::ScrollTabs { up: false });
            }
        }
        if (kind == MouseKind::WheelUp || kind == MouseKind::WheelDown) && cx >= button && cx
            < self.canvas.cols.saturating_sub(self.canvas.observatory_width()) {
            return Some(MouseStep::ScrollTabs { up: kind == MouseKind::WheelUp });
        }
        Some(
            match find_slot(&self.bar.tabs, cx, cy) {
                Some(slot) => {
                    if click {
                        MouseStep::ShowTab { position: slot.item, menu: None }
                    } else if kind == MouseKind::RightClick {
                        MouseStep::ShowTab { position: slot.item, menu: Some(slot.rect) }
                    } else {
                        MouseStep::Nothing
                    }
                },
                None => MouseStep::Nothing,
            },
        )
    }

    /// The pointer is on the button that switches a list's scope.
    pub open spec fn on_scope(self, x: u16, width: u16, cx: int, cy: int) -> bool {
        cy == crate::canvas::more(self.canvas.chrome().area.y as int, 1) && x <= cx
            < crate::canvas::more(x as int, width as int)
    }

    fn is_on_scope(&self, x: u16, width: u16, cx: u16, cy: u16) -> (hit: bool)
        ensures
            hit == self.on_scope(x, width, cx as int, cy as int),
    {
        cy == self.canvas.chrome_area().area.y.saturating_add(1) && cx >= x && cx
            < x.saturating_add(width)
    }

    /// What an event on the list of agents asks for.
    pub open spec fn agents_step(self, cx: int, cy: int, kind: MouseKind) -> MouseStep {
        let click = kind == MouseKind::Click;
        if click && rect_hit(self.agent_actions@, cx, cy, 0) is Some {
            MouseStep::AgentAction(rect_hit(self.agent_actions@, cx, cy, 0).unwrap() as usize)
        } else if cy == crate::canvas::less(self.canvas.chrome().area.bottom(), 1) {
            MouseStep::Nothing
        } else if click && self.on_scope(self.agent_scope_x, self.agent_scope_width, cx, cy) {
            MouseStep::ToggleScope(ObservatoryTab::Agents)
        } else if is_wheel(kind) {
            MouseStep::ScrollObservatory {
                tab: ObservatoryTab::Agents,
                up: kind == MouseKind::WheelUp,
            }
        } else if click {
            match row_hit(self.agent_slots@, cy, 0) {
                Some(slot) => if slot.item < self.agents {
                    MouseStep::ShowAgent(slot.item)
                } else {
                    MouseStep::Nothing
                },
                None => MouseStep::Nothing,
            }
        } else {
            MouseStep::Nothing
        }
    }

    fn route_agents(&self, cx: u16, cy: u16, kind: MouseKind) -> (step: MouseStep)
        ensures
            step == self.agents_step(cx as int, cy as int, kind),
    {
        let click = kind == MouseKind::Click;
        if click {
            if let Some(i) = find_rect(&self.agent_actions, cx, cy) {
                return MouseStep::AgentAction(i);
            }
        }
        proof {
            crate::canvas::lemma_canvas_divided(self.canvas);
        }
        let area = self.canvas.chrome_area().area;
        if cy == (area.y + area.h).saturating_sub(1) {
            return MouseStep::Nothing;
        }
        if click && self.is_on_scope(self.agent_scope_x, self.agent_scope_width, cx, cy) {
            return MouseStep::ToggleScope(ObservatoryTab::Agents);
        }
        if kind == MouseKind::WheelUp || kind == MouseKind::WheelDown {
            return MouseStep::ScrollObservatory {
                tab: ObservatoryTab::Agents,
                up: kind == MouseKind::WheelUp,
            };
        }
        if click {
            if let Some(slot) = card_at(&self.agent_slots, cy) {
                if slot.item < self.agents {
                    return MouseStep::ShowAgent(slot.item);
                }
            }
        }
        MouseStep::Nothing
    }

    /// What an event on the list of web servers asks for.
    pub open spec fn servers_step(self, cx: int, cy: int, kind: MouseKind) -> MouseStep {
        let click = kind == MouseKind::Click;
        if click && self.on_scope(self.server_scope_x, self.server_scope_width, cx, cy) {
            MouseStep::ToggleScope(ObservatoryTab::WebServers)
        } else if is_wheel(kind) {
            MouseStep::ScrollObservatory {
                tab: ObservatoryTab::WebServers,
                up: kind == MouseKind::WheelUp,
            }
        } else if click {
            match row_hit(self.server_slots@, cy, 0) {
                Some(slot) => if slot.item < self.servers {
                    MouseStep::OpenServer(slot.item)
                } else {
                    MouseStep::Nothing
                },
                None => MouseStep::Nothing,
            }
        } else {
            MouseStep::Nothing
        }
    }

    fn route_servers(&self, cx: u16, cy: u16, kind: MouseKind) -> (step: MouseStep)
        ensures
            step == self.servers_step(cx as int, cy as int, kind),
    {
        let click = kind == MouseKind::Click;
        if click && self.is_on_scope(self.server_scope_x, self.server_scope_width, cx, cy) {
            return MouseStep::ToggleScope(ObservatoryTab::WebServers);
        }
        if kind == MouseKind::WheelUp || kind == MouseKind::WheelDown {
            return MouseStep::ScrollObservatory {
                tab: ObservatoryTab::WebServers,
                up: kind == MouseKind::WheelUp,
            };
        }
        if click {
            if let Some(slot) = card_at(&self.server_slots, cy) {
                if slot.item < self.servers {
                    return MouseStep::OpenServer(slot.item);
                }
            }
        }
        MouseStep::Nothing
    }

    /// What an event on the file tree asks for.
    pub open spec fn files_step(self, cy: u16, kind: MouseKind) -> MouseStep {
        if is_wheel(kind) {
            MouseStep::WheelFiles { up: kind == MouseKind::WheelUp }
        } else if kind == MouseKind::Click {
            match self.file_rows.slot(cy) {
                Some(slot) => MouseStep::ClickFile(slot as usize),
                None => MouseStep::FocusFiles,
            }
        } else {
            MouseStep::Nothing
        }
    }

    fn route_files(&self, cy: u16, kind: MouseKind) -> (step: MouseStep)
        ensures
            step == self.files_step(cy, kind),
    {
        if kind == MouseKind::WheelUp || kind == MouseKind::WheelDown {
            MouseStep::WheelFiles { up: kind == MouseKind::WheelUp }
        } else if kind == MouseKind::Click {
            match self.file_rows.slot_at(cy) {
                Some(slot) => MouseStep::ClickFile(slot),
                None => MouseStep::FocusFiles,
            }
        } else {
            MouseStep::Nothing
        }
    }

    /// What an event on the right sidebar asks for.
    pub open spec fn observatory_step(self, cx: u16, cy: u16, kind: MouseKind) -> MouseStep {
        match self.observatory_tab {
            ObservatoryTab::Agents => self.agents_step(cx as int, cy as int, kind),
            ObservatoryTab::Files => self.files_step(cy, kind),
            ObservatoryTab::WebServers => self.servers_step(cx as int, cy as int, kind),
        }
    }

    /// What an event over the Panes asks for.
    pub open spec fn canvas_step(self, cx: int, cy: int, kind: MouseKind) -> MouseStep {
        if kind == MouseKind::Click && self.toast && on(self.canvas.toast(), cx, cy) {
            MouseStep::OpenToast
        } else if self.divider_drag is Some && kind == MouseKind::Drag {
            MouseStep::DragDivider(self.divider_drag.unwrap())
        } else if self.divider_drag is Some && kind == MouseKind::Release {
            MouseStep::DropDivider
        } else if kind == MouseKind::Click && !self.armed && divider_hit(
            self.dividers@,
            cx,
            cy,
            0,
        ) is Some {
            MouseStep::GrabDivider(divider_hit(self.dividers@, cx, cy, 0).unwrap())
        } else if kind == MouseKind::Release && self.latest is Some {
            MouseStep::ResumeLive(self.latest.unwrap())
        } else {
            MouseStep::Pane {
                pane: pane_hit(self.panes@, cx, cy, 0),
                step: step_over(kind, self.focus_follows),
            }
        }
    }

    fn route_canvas(&self, cx: u16, cy: u16, kind: MouseKind) -> (step: MouseStep)
        ensures
            step == self.canvas_step(cx as int, cy as int, kind),
    {
        if kind == MouseKind::Click && self.toast && is_on(
            &self.canvas.notification_rect(),
            cx,
            cy,
        ) {
            return MouseStep::OpenToast;
        }
        if let Some(divider) = self.divider_drag {
            if kind == MouseKind::Drag {
                return MouseStep::DragDivider(divider);
            }
            if kind == MouseKind::Release {
                return MouseStep::DropDivider;
            }
        }
        if kind == MouseKind::Click && !self.armed {
            if let Some(divider) = find_divider(&self.dividers, cx, cy) {
                return MouseStep::GrabDivider(divider);
            }
        }
        if kind == MouseKind::Release {
            if let Some(pane) = self.latest {
                return MouseStep::ResumeLive(pane);
            }
        }
        MouseStep::Pane {
            pane: find_pane(&self.panes, cx, cy),
            step: pane_step(kind, self.focus_follows),
        }
    }

    /// The Pane under the pointer, where a right click goes to its program.
    pub open spec fn right_click_target(self, cx: int, cy: int) -> Option<PaneId> {
        match pane_hit(self.panes@, cx, cy, 0) {
            Some(pane) => if self.pane_right_click && self.tracking@.contains(pane) {
                Some(pane)
            } else {
                None
            },
            None => None,
        }
    }

    fn find_right_click_target(&self, cx: u16, cy: u16) -> (found: Option<PaneId>)
        ensures
            found == self.right_click_target(cx as int, cy as int),
    {
        if !self.pane_right_click {
            return None;
        }
        let pane = find_pane(&self.panes, cx, cy)?;
        let mut i: usize = 0;
        while i < self.tracking.len()
            invariant
                i <= self.tracking@.len(),
                pane_hit(self.panes@, cx as int, cy as int, 0) == Some(pane),
                self.pane_right_click,
                forall|k: int| 0 <= k < i ==> self.tracking@[k] != pane,
            decreases self.tracking@.len() - i,
        {
            if self.tracking[i] == pane {
                assert(self.tracking@.contains(pane));
                return Some(pane);
            }
            i += 1;
        }
        None
    }
}

impl WorkspaceState {
    /// What a right click asks for, off the status line.
    pub open spec fn right_click_step(self, view: PointerView, cx: int, cy: int) -> MouseStep {
        let left = view.canvas.left();
        let above = cy >= view.canvas.rows as int / 2;
        let width = crate::canvas::less(left, 1) as u16;
        if left > 0 && cx < left {
            match row_hit(view.project_slots@, cy, 0) {
                Some(slot) => if slot.item < self.projects.len() {
                    MouseStep::ProjectMenu {
                        project: self.projects[slot.item as int].id,
                        anchor: Rect { x: 0, y: slot.rect.y, w: width, h: slot.rect.h },
                        above,
                    }
                } else {
                    MouseStep::ProjectsMenu {
                        anchor: Rect { x: 0, y: cy as u16, w: width, h: 1 },
                        above,
                    }
                },
                None => MouseStep::ProjectsMenu {
                    anchor: Rect { x: 0, y: cy as u16, w: width, h: 1 },
                    above,
                },
            }
        } else {
            match view.right_click_target(cx, cy) {
                Some(pane) => MouseStep::ForwardRightClick(pane),
                None => MouseStep::OpenContextMenu(view.menu_spot(cx as u16, cy as u16)),
            }
        }
    }

    /// What an event on the Project list asks for.
    pub open spec fn rail_step(self, view: PointerView, cy: int, kind: MouseKind) -> MouseStep {
        if is_wheel(kind) {
            MouseStep::ScrollProjects { up: kind == MouseKind::WheelUp }
        } else if kind == MouseKind::Click {
            match row_hit(view.project_slots@, cy, 0) {
                Some(slot) => if slot.item < self.projects.len() {
                    MouseStep::SwitchProject(self.projects[slot.item as int].id)
                } else {
                    MouseStep::Nothing
                },
                None => MouseStep::Nothing,
            }
        } else {
            MouseStep::Nothing
        }
    }

    /// What an event on the overview asks for.
    pub open spec fn tile_step(self, view: PointerView, cx: int, cy: int, kind: MouseKind) -> MouseStep {
        match rect_hit(view.tiles@, cx, cy, 0) {
            Some(i) => if kind == MouseKind::Click {
                MouseStep::ClickTile(i as usize)
            } else if kind == MouseKind::Hover && self.overview != Some(i as usize) {
                MouseStep::HoverTile(i as usize)
            } else {
                MouseStep::Nothing
            },
            None => MouseStep::Nothing,
        }
    }

    /// What a mouse event at cell (`cx`, `cy`) asks for.
    pub open spec fn mouse_step(
        self,
        view: PointerView,
        cx: u16,
        cy: u16,
        kind: MouseKind,
    ) -> MouseStep {
        let right = view.canvas.right();
        let left = view.canvas.left();
        match view.status_step(cx as int, cy as int, kind) {
            Some(step) => step,
            None => if kind == MouseKind::RightClick {
                self.right_click_step(view, cx as int, cy as int)
            } else if view.menu_open {
                MouseStep::ContextMenu(menu_event(kind))
            } else if right > 0 && cx >= crate::canvas::less(view.canvas.cols as int, right) {
                view.observatory_step(cx, cy, kind)
            } else if left > 0 && cx < left {
                self.rail_step(view, cy as int, kind)
            } else if self.overview is Some {
                self.tile_step(view, cx as int, cy as int, kind)
            } else {
                view.canvas_step(cx as int, cy as int, kind)
            },
        }
    }

    /// The state after a Pane was shown and focused, wherever it is.
    pub open spec fn show_pane(self, pane: PaneId) -> WorkspaceState {
        match window_of(self.windows, pane) {
            Some(w) => {
                let shown = self.activate(w);
                WorkspaceState {
                    windows: shown.windows.update(w, Win { active: pane, ..shown.windows[w] }),
                    ..shown
                }
            },
            None => self,
        }
    }
}

impl Workspace {
    fn route_right_click(&self, view: &PointerView, cx: u16, cy: u16) -> (step: MouseStep)
        ensures
            step == self@.right_click_step(*view, cx as int, cy as int),
    {
        let left: u16 = view.canvas.left_width();
        let above = cy >= view.canvas.rows / 2;
        let width: u16 = left.saturating_sub(1);
        if left > 0 && cx < left {
            if let Some(slot) = card_at(&view.project_slots, cy) {
                if slot.item < self.projects.len() {
                    return MouseStep::ProjectMenu {
                        project: self.projects[slot.item].id,
                        anchor: Rect::new(0, slot.rect.y, width, slot.rect.h),
                        above,
                    };
                }
            }
            return MouseStep::ProjectsMenu { anchor: Rect::new(0, cy, width, 1), above };
        }
        match view.find_right_click_target(cx, cy) {
            Some(pane) => MouseStep::ForwardRightClick(pane),
            None => MouseStep::OpenContextMenu(view.open_context_menu(cx, cy)),
        }
    }

    fn route_rail(&self, view: &PointerView, cy: u16, kind: MouseKind) -> (step: MouseStep)
        ensures
            step == self@.rail_step(*view, cy as int, kind),
    {
        if kind == MouseKind::WheelUp || kind == MouseKind::WheelDown {
            return MouseStep::ScrollProjects { up: kind == MouseKind::WheelUp };
        }
        if kind == MouseKind::Click {
            if let Some(slot) = card_at(&view.project_slots, cy) {
                if slot.item < self.projects.len() {
                    return MouseStep::SwitchProject(self.projects[slot.item].id);
                }
            }
        }
        MouseStep::Nothing
    }

    fn route_tiles(&self, view: &PointerView, cx: u16, cy: u16, kind: MouseKind) -> (step: MouseStep)
        requires
            self@.overview is Some,
        ensures
            step == self@.tile_step(*view, cx as int, cy as int, kind),
    {
        let hit = find_rect(&view.tiles, cx, cy);
        match hit {
            Some(i) => {
                if kind == MouseKind::Click {
                    return MouseStep::ClickTile(i);
                }
                let same = match self.overview {
                    Some(sel) => sel == i,
                    None => false,
                };
                if kind == MouseKind::Hover && !same {
                    MouseStep::HoverTile(i)
                } else {
                    MouseStep::Nothing
                }
            },
            None => MouseStep::Nothing,
        }
    }

    /// Route a mouse event at the cell (`x`, `y`), counted from one: the status
    /// line first, the menu of a right click, an open menu, the sidebars, the
    /// overview, a notification, a divider, and at last the Panes.
    pub fn on_mouse(&self, view: &PointerView, x: u16, y: u16, kind: MouseKind) -> (step: MouseStep)
        ensures
            step == self@.mouse_step(
                *view,
                crate::canvas::less(x as int, 1) as u16,
                crate::canvas::less(y as int, 1) as u16,
                kind,
            ),
    {
        let cx: u16 = x.saturating_sub(1);
        let cy: u16 = y.saturating_sub(1);
        if let Some(step) = view.handle_status_mouse(cx, cy, kind) {
            return step;
        }
        if kind == MouseKind::RightClick {
            return self.route_right_click(view, cx, cy);
        }
        if view.menu_open {
            return MouseStep::ContextMenu(handle_context_mouse(kind));
        }
        let right: u16 = view.canvas.observatory_width();
        if right > 0 && cx >= view.canvas.cols.saturating_sub(right) {
            return match view.observatory_tab {
                ObservatoryTab::Agents => view.route_agents(cx, cy, kind),
                ObservatoryTab::Files => view.route_files(cy, kind),
                ObservatoryTab::WebServers => view.route_servers(cx, cy, kind),
            };
        }
        let left: u16 = view.canvas.left_width();
        if left > 0 && cx < left {
            return self.route_rail(view, cy, kind);
        }
        if self.overview.is_some() {
            return self.route_tiles(view, cx, cy, kind);
        }
        view.route_canvas(cx, cy, kind)
    }

    /// Scroll the Tab bar by one Tab. It stops following the active Tab.
    pub fn scroll_tabs(&mut self, up: bool)
        ensures
            final(self)@ == (WorkspaceState {
                tab_scroll: scrolled(old(self)@.tab_scroll, up),
                tab_scroll_follow_active: false,
                ..old(self)@
            }),
    {
        let ghost s = self@;
        self.tab_scroll = if up {
            self.tab_scroll.saturating_sub(1)
        } else {
            self.tab_scroll.saturating_add(1)
        };
        self.tab_scroll_follow_active = false;
        assert(self@ =~= (WorkspaceState {
            tab_scroll: scrolled(s.tab_scroll, up),
            tab_scroll_follow_active: false,
            ..s
        }));
    }

    /// Scroll the Project list by one card.
    pub fn scroll_projects(&mut self, up: bool)
        ensures
            final(self)@ == (WorkspaceState {
                project_scroll: scrolled(old(self)@.project_scroll, up),
                ..old(self)@
            }),
    {
        let ghost s = self@;
        self.project_scroll = if up {
            self.project_scroll.saturating_sub(1)
        } else {
            self.project_scroll.saturating_add(1)
        };
        assert(self@ =~= (WorkspaceState { project_scroll: scrolled(s.project_scroll, up), ..s }));
    }

    /// Show a Pane and focus it, wherever it is; whether it was found.
    pub fn show_pane(&mut self, pane: PaneId) -> (found: bool)
        requires
            old(self)@.wf(),
        ensures
            final(self)@ == old(self)@.show_pane(pane),
            found == (window_of(old(self)@.windows, pane) is Some),
            final(self)@.wf(),
            old(self)@.all_open() ==> final(self)@.all_open(),
    {
        let ghost s = self@;
        match self.window_of(pane) {
            Some(w) => {
                proof {
                    lemma_activate(s, w as int);
                    lemma_window_of_found(s.windows, pane);
                    let shown = s.activate(w as int);
                    assert(s.windows[w as int].wf());
                    let win = Win { active: pane, ..shown.windows[w as int] };
                    crate::focus::lemma_refocus_wf(shown, w as int, win);
                }
                self.activate_window(w);
                self.windows[w].active = pane;
                assert(self@ =~= s.show_pane(pane));
                true
            },
            None => false,
        }
    }
}

/// A scroll position moved by one.
pub open spec fn scrolled(at: int, up: bool) -> int {
    if up {
        if at > 0 {
            at - 1
        } else {
            0
        }
    } else if at < usize::MAX {
        at + 1
    } else {
        at
    }
}

/// Scroll a list of the right sidebar by one card.
pub fn scroll_list(at: usize, up: bool) -> (to: usize)
    ensures
        to == scrolled(at as int, up),
{
    if up {
        at.saturating_sub(1)
    } else {
        at.saturating_add(1)
    }
}

/// What an event over the Panes is.
#[derive(Clone, Copy, Debug, PartialEq, Eq, Structural)]
pub enum PaneStep {
    Nothing,
    /// Focus the Pane and tell its program.
    Hover,
    /// Focus the Pane, and arm a selection or tell its program.
    Press,
    /// Go on with the selection, or tell the program.
    Drag,
    /// Open a link, finish the selection, or tell the program.
    Release,
    Wheel { up: bool },
}

impl PaneStep {
    /// The Pane under the pointer gets the focus.
    pub open spec fn focuses(self) -> bool {
        self == PaneStep::Hover || self == PaneStep::Press
    }
}

/// What an event over the Panes is: a hover counts only where the focus follows
/// the mouse.
pub open spec fn step_over(kind: MouseKind, focus_follows: bool) -> PaneStep {
    match kind {
        MouseKind::Hover => if focus_follows {
            PaneStep::Hover
        } else {
            PaneStep::Nothing
        },
        MouseKind::Click => PaneStep::Press,
        MouseKind::Drag => PaneStep::Drag,
        MouseKind::Release => PaneStep::Release,
        MouseKind::WheelUp => PaneStep::Wheel { up: true },
        MouseKind::WheelDown => PaneStep::Wheel { up: false },
        MouseKind::RightClick => PaneStep::Nothing,
    }
}

/// What an event over the Panes is.
pub fn pane_step(kind: MouseKind, focus_follows: bool) -> (step: PaneStep)
    ensures
        step == step_over(kind, focus_follows),
{
    match kind {
        MouseKind::Hover => {
            if focus_follows {
                PaneStep::Hover
            } else {
                PaneStep::Nothing
            }
        },
        MouseKind::Click => PaneStep::Press,
        MouseKind::Drag => PaneStep::Drag,
        MouseKind::Release => PaneStep::Release,
        MouseKind::WheelUp => PaneStep::Wheel { up: true },
        MouseKind::WheelDown => PaneStep::Wheel { up: false },
        MouseKind::RightClick => PaneStep::Nothing,
    }
}

/// No event on the status line reaches a Pane, a sidebar or a menu below it,
/// and no event reaches a Pane while a menu is open.
pub proof fn lemma_chrome_keeps_events(
    s: WorkspaceState,
    view: PointerView,
    cx: u16,
    cy: u16,
    kind: MouseKind,
)
    ensures
        view.canvas.chrome().status_row == Some(cy) ==> !(s.mouse_step(
            view,
            cx,
            cy,
            kind,
        ) is Pane),
        view.menu_open ==> !(s.mouse_step(view, cx, cy, kind) is Pane),
        s.overview is Some ==> !(s.mouse_step(view, cx, cy, kind) is Pane),
{
}

} // verus!
