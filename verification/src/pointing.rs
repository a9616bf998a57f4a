//! What a mouse event changes: the step that it asks for, carried out on the
//! server and on what the pointer holds.
use crate::canvas::{tab_dividers, tab_rects};
use crate::commands::{Command, CommandInputs, FileTreeChange, ObservatoryTab, ViewState};
use crate::files::{FileAction, FileActionStep};
use crate::following::Shift;
use crate::hierarchy::{tabs_of, unshown, window_of, Win, Workspace, WorkspaceState};
use crate::layout::{Divider, Layout, LayoutNode, PaneRect};
use crate::menu::{ContextAction, MenuMouse, TabSwitch};
use crate::mouse::{
    arm_selection, armed, drag_selection, dragged, finish_selection, finished, link_cell,
    moved_divider, nearest, owns_mouse, plain_click_cell, same_line, DragStep, FinishStep,
    MouseKind, MouseSel, PaneMouse,
};
use crate::overview::OverviewChange;
use crate::pointer::{pane_hit, scroll_list, scrolled, MouseStep, PaneStep, PointerView};
use crate::server::Server;
use crate::serving::{lemma_ids_below, lemma_updated_tab, shows_no_more};
use crate::session::{Session, Toast};
use crate::tabs::lemma_tabs_among;
use crate::text::trim;
use crate::types::{PaneId, Rect, Token};
use vstd::prelude::*;

verus! {

/// What the pointer holds, and how far the lists of the right sidebar are
/// scrolled.
#[derive(Debug)]
pub struct PointerState {
    pub agents_scroll: usize,
    pub servers_scroll: usize,
    /// The divider that is dragged.
    pub divider: Option<Divider>,
    /// The press that may become a text selection.
    pub selection: Option<MouseSel>,
}

/// What the Panes and the settings say to an event over the Panes.
#[derive(Clone, Copy, Debug, PartialEq, Eq, Structural)]
pub struct PaneFacts {
    /// The client whose mouse it is.
    pub client: Token,
    /// The Pane under the pointer.
    pub under: Option<PaneMouse>,
    /// The Pane in which a selection is armed.
    pub held: Option<PaneMouse>,
    /// That Pane shows a selection that an earlier release finished.
    pub finished: bool,
    /// There is a link at the cell that was pressed.
    pub link: bool,
    /// Drags select text even where a program owns the mouse.
    pub freeze: bool,
    /// Selected text is copied at once.
    pub copy_on_select: bool,
}

/// What the file tree made of an event.
#[derive(Debug)]
pub struct FileClick {
    pub action: FileAction,
    /// The tree has the focus afterwards.
    pub focused: bool,
}

/// What a mouse event finds outside.
#[derive(Debug)]
pub struct PointInputs {
    /// The cell under the pointer.
    pub cx: u16,
    pub cy: u16,
    /// The Pane of the agent whose card was clicked.
    pub agent: Option<PaneId>,
    /// The active Tab with the dragged divider under the pointer, where that
    /// changed its division.
    pub redivided: Option<LayoutNode>,
    pub panes: PaneFacts,
    /// Another entry of the open menu was marked.
    pub marked: bool,
    /// The entry of the open menu under the pointer.
    pub chosen: Option<ContextAction>,
    pub file: FileClick,
}

/// What an event over the Panes asks of a Pane.
#[derive(Clone, Copy, Debug, PartialEq, Eq)]
pub enum PaneAct {
    Nothing,
    /// Tell the program, where it asked for such events.
    Tell { pane: PaneId, kind: MouseKind },
    Wheel { pane: PaneId, up: bool },
    /// Select text up to the cell under the pointer.
    Select(DragStep),
    Finish(FinishStep),
    /// Open the link at the cell for this client.
    OpenLink(Token),
}

impl PaneAct {
    /// The screen changes with it.
    pub open spec fn paints(self) -> bool {
        match self {
            PaneAct::Select(_) => true,
            PaneAct::Finish(step) => !(step is DeliverClick),
            _ => false,
        }
    }

    fn repaints(&self) -> (yes: bool)
        ensures
            yes == self.paints(),
    {
        match self {
            PaneAct::Select(_) => true,
            PaneAct::Finish(step) => match step {
                FinishStep::DeliverClick { .. } => false,
                _ => true,
            },
            _ => false,
        }
    }
}

/// Tell the program in the Pane under the pointer, where there is one.
pub open spec fn told(pane: Option<PaneId>, kind: MouseKind) -> PaneAct {
    match pane {
        Some(p) => PaneAct::Tell { pane: p, kind },
        None => PaneAct::Nothing,
    }
}

fn tell(pane: Option<PaneId>, kind: MouseKind) -> (act: PaneAct)
    ensures
        act == told(pane, kind),
{
    match pane {
        Some(p) => PaneAct::Tell { pane: p, kind },
        None => PaneAct::Nothing,
    }
}

/// Where the Pane of an armed selection is shown.
pub open spec fn held_rect(sel: Option<MouseSel>, panes: Seq<PaneRect>) -> Option<Rect> {
    match sel {
        Some(s) => Layout::place(panes, s.pane),
        None => None,
    }
}

/// What an event over the Panes asks. A selection under way takes a drag and a
/// release before the Pane under the pointer does, and a link at a plain click
/// before that.
pub open spec fn pane_act(
    sel: Option<MouseSel>,
    pane: Option<PaneId>,
    step: PaneStep,
    rect: Option<Rect>,
    cx: u16,
    cy: u16,
    facts: PaneFacts,
) -> PaneAct {
    match step {
        PaneStep::Nothing => PaneAct::Nothing,
        PaneStep::Hover => told(pane, MouseKind::Hover),
        PaneStep::Press => if facts.freeze && facts.under is Some && owns_mouse(
            facts.under.unwrap(),
        ) {
            PaneAct::Nothing
        } else {
            told(pane, MouseKind::Click)
        },
        PaneStep::Drag => match dragged(
            sel,
            rect is Some && facts.held is Some,
            facts.held matches Some(held) && held.copying,
        ) {
            Some(drag) => PaneAct::Select(drag),
            None => told(pane, MouseKind::Drag),
        },
        PaneStep::Release => match link_cell(sel, rect, facts.held, cx as int, cy as int) {
            Some((client, _, _)) if facts.link => PaneAct::OpenLink(client),
            _ => match finished(sel, facts.finished, facts.copy_on_select) {
                FinishStep::NotOurs => told(pane, MouseKind::Release),
                end => PaneAct::Finish(end),
            },
        },
        PaneStep::Wheel { up } => match pane {
            Some(p) => PaneAct::Wheel { pane: p, up },
            None => PaneAct::Nothing,
        },
    }
}

/// The selection that an event over the Panes leaves armed.
pub open spec fn pane_selection(
    sel: Option<MouseSel>,
    pane: Option<PaneId>,
    step: PaneStep,
    rect: Option<Rect>,
    cx: u16,
    cy: u16,
    facts: PaneFacts,
) -> Option<MouseSel> {
    match step {
        PaneStep::Press => match pane {
            Some(p) => armed(sel, facts.client, p, facts.under, cx, cy, facts.freeze),
            None => sel,
        },
        PaneStep::Drag => match sel {
            Some(s) if rect is Some && facts.held is Some => Some(
                MouseSel { selecting: true, ..s },
            ),
            _ => None,
        },
        PaneStep::Release => None,
        _ => sel,
    }
}

/// What a mouse event leaves to do.
#[derive(Clone, Copy, Debug, PartialEq, Eq, Structural)]
pub struct PointEffect {
    pub relayout: bool,
    pub repaint: bool,
    pub persist: bool,
    /// The structure of the Workspace is to be remembered.
    pub remember: bool,
}

impl PointEffect {
    pub open spec fn none() -> PointEffect {
        PointEffect { relayout: false, repaint: false, persist: false, remember: false }
    }

    /// Paint, and no more.
    pub open spec fn paint() -> PointEffect {
        PointEffect { relayout: false, repaint: true, persist: false, remember: false }
    }

    /// Lay out, paint and save, where something was shown.
    pub open spec fn moved(shown: bool) -> PointEffect {
        PointEffect { relayout: shown, repaint: shown, persist: shown, remember: false }
    }
}

impl PointEffect {
    /// What either leaves to do.
    pub open spec fn or(self, other: PointEffect) -> PointEffect {
        PointEffect {
            relayout: self.relayout || other.relayout,
            repaint: self.repaint || other.repaint,
            persist: self.persist || other.persist,
            remember: self.remember || other.remember,
        }
    }
}

/// What a mouse event changed outside the hierarchy, and what it leaves to do.
#[derive(Debug)]
pub struct Pointed {
    pub effect: PointEffect,
    pub act: PaneAct,
    /// Another tab of the right sidebar was selected.
    pub switch: Option<TabSwitch>,
    /// This entry of the menu is to be carried out; the menu is closed.
    pub run: Option<ContextAction>,
    /// What a choice in the file tree leaves to do.
    pub files: Option<FileActionStep>,
    /// Another Project became active.
    pub follow: FileTreeChange,
}

fn effect(relayout: bool, repaint: bool, persist: bool) -> (out: PointEffect)
    ensures
        out == (PointEffect { relayout, repaint, persist, remember: false }),
{
    PointEffect { relayout, repaint, persist, remember: false }
}

/// The divider that a drag holds next: of those on the line of the last, the one
/// nearest to the pointer, else the last.
pub open spec fn followed(list: Seq<Divider>, last: Divider, x: int, y: int, next: Divider) -> bool {
    ||| exists|i: int| #[trigger] nearest(list, last, x, y, i) && next == list[i]
    ||| next == last && forall|j: int| 0 <= j < list.len() ==> !same_line(#[trigger] list[j], last)
}

impl WorkspaceState {
    /// The hierarchy after a step, except for one that runs a command.
    pub open spec fn pointed(
        self,
        step: MouseStep,
        agent: Option<PaneId>,
        redivided: Option<LayoutNode>,
        toast: Option<PaneId>,
    ) -> WorkspaceState {
        match step {
            MouseStep::ScrollTabs { up } => WorkspaceState {
                tab_scroll: scrolled(self.tab_scroll, up),
                tab_scroll_follow_active: false,
                ..self
            },
            MouseStep::ShowTab { position, .. } => self.select_tab(position as int),
            MouseStep::ForwardRightClick(pane) => if self.tab().active != pane
                && self.tab().shows(pane) {
                self.move_focus(pane)
            } else {
                self
            },
            MouseStep::ShowAgent(_) => match agent {
                Some(pane) if window_of(self.windows, pane) is Some => WorkspaceState {
                    tab_scroll_follow_active: true,
                    ..self.show_pane(pane)
                },
                _ => self,
            },
            MouseStep::ScrollProjects { up } => WorkspaceState {
                project_scroll: scrolled(self.project_scroll, up),
                ..self
            },
            MouseStep::SwitchProject(project) => self.switch_to(project),
            MouseStep::HoverTile(tile) => if self.overview is Some {
                WorkspaceState { overview: Some(tile), ..self }
            } else {
                self
            },
            MouseStep::ClickTile(tile) => if self.overview is Some {
                self.leave_overview(Some(tile))
            } else {
                self
            },
            MouseStep::OpenToast => match toast {
                Some(pane) => self.show_pane(pane),
                None => self,
            },
            MouseStep::DragDivider(_) => match redivided {
                Some(layout) if self.tab().zoomed is None => self.with_tab(
                    Win { layout, ..self.tab() },
                ),
                _ => self,
            },
            MouseStep::Pane { pane: Some(pane), step } if step.focuses() => self.focus_here(pane),
            _ => self,
        }
    }

    /// What a step leaves to do, except for one that runs a command.
    pub open spec fn point_effect(
        self,
        step: MouseStep,
        agent: Option<PaneId>,
        redivided: Option<LayoutNode>,
        toast: Option<PaneId>,
    ) -> PointEffect {
        match step {
            MouseStep::ScrollTabs { .. } | MouseStep::ScrollProjects { .. } => PointEffect::paint(),
            MouseStep::ShowTab { position, .. } => PointEffect::moved(
                self.selectable(position as int) is Some,
            ),
            MouseStep::ForwardRightClick(pane) => {
                let focused = self.tab().active != pane && self.tab().shows(pane);
                PointEffect { relayout: focused, repaint: focused, ..PointEffect::none() }
            },
            MouseStep::ToggleScope(tab) => if tab == ObservatoryTab::Files {
                PointEffect::none()
            } else {
                PointEffect { remember: true, ..PointEffect::paint() }
            },
            MouseStep::ScrollObservatory { tab, .. } => if tab == ObservatoryTab::Files {
                PointEffect::none()
            } else {
                PointEffect::paint()
            },
            MouseStep::ShowAgent(_) => PointEffect::moved(
                agent matches Some(pane) && window_of(self.windows, pane) is Some,
            ),
            MouseStep::FocusFiles | MouseStep::ResumeLive(_) => PointEffect::paint(),
            MouseStep::SwitchProject(project) => PointEffect::moved(
                project != self.active_project && crate::hierarchy::has_tab(
                    self.windows,
                    project,
                ),
            ),
            MouseStep::HoverTile(tile) => PointEffect {
                repaint: self.overview is Some && self.overview != Some(tile),
                ..PointEffect::none()
            },
            MouseStep::ClickTile(tile) => if self.overview is None {
                PointEffect::none()
            } else {
                PointEffect {
                    relayout: self.picked(Some(tile)) is Some,
                    persist: self.picked(Some(tile)) is Some,
                    ..PointEffect::paint()
                }
            },
            MouseStep::OpenToast => PointEffect {
                relayout: toast matches Some(pane) && window_of(self.windows, pane) is Some,
                ..PointEffect::paint()
            },
            MouseStep::DragDivider(_) => {
                let moved = redivided is Some && self.tab().zoomed is None;
                PointEffect { relayout: moved, repaint: moved, ..PointEffect::none() }
            },
            MouseStep::DropDivider => PointEffect { persist: true, ..PointEffect::none() },
            MouseStep::Pane { pane: Some(pane), step } if step.focuses() => {
                let moved = self.tab().shows(pane) && self.tab().active != pane;
                PointEffect { relayout: moved, repaint: moved, ..PointEffect::none() }
            },
            _ => PointEffect::none(),
        }
    }
}

impl ViewState {
    /// The view after a step. `focused` says that a click left the file tree the
    /// focus.
    pub open spec fn pointed(self, step: MouseStep, focused: bool) -> ViewState {
        match step {
            MouseStep::FocusFiles | MouseStep::WheelFiles { .. } => ViewState {
                files_focused: true,
                ..self
            },
            MouseStep::ClickFile(_) => ViewState { files_focused: focused, ..self },
            MouseStep::SelectObservatory(tab) => self.with_tab(tab),
            MouseStep::OpenContextMenu(spot) => self.with_menu(spot),
            MouseStep::ContextMenu(MenuMouse::Choose) => ViewState { context_menu: false, ..self },
            _ => self,
        }
    }

    /// What a step leaves to do for the view. `marked` says that another entry
    /// of the menu was marked, and `chosen` is the one under the pointer.
    pub open spec fn point_effect(
        self,
        step: MouseStep,
        marked: bool,
        chosen: Option<ContextAction>,
    ) -> PointEffect {
        match step {
            MouseStep::SelectObservatory(tab) => {
                let changed = tab != self.observatory_tab;
                PointEffect { relayout: changed, repaint: changed, ..PointEffect::none() }
            },
            MouseStep::OpenContextMenu(_) => PointEffect::paint(),
            MouseStep::ContextMenu(event) if self.context_menu => PointEffect {
                repaint: match event {
                    MenuMouse::Mark => marked,
                    MenuMouse::Choose => chosen is None,
                    MenuMouse::Type(_) => true,
                    MenuMouse::Nothing => false,
                },
                ..PointEffect::none()
            },
            _ => PointEffect::none(),
        }
    }

    /// Carry out what a step does to the view.
    fn apply_point(
        &mut self,
        step: MouseStep,
        focused: bool,
        marked: bool,
        chosen: Option<ContextAction>,
    ) -> (out: PointEffect)
        ensures
            *final(self) == old(self).pointed(step, focused),
            out == old(self).point_effect(step, marked, chosen),
    {
        match step {
            MouseStep::FocusFiles | MouseStep::WheelFiles { up: _ } => {
                self.files_focused = true;
                effect(false, false, false)
            },
            MouseStep::ClickFile(_) => {
                self.files_focused = focused;
                effect(false, false, false)
            },
            MouseStep::SelectObservatory(tab) => {
                let changed = self.select_observatory_tab(tab).is_some();
                effect(changed, changed, false)
            },
            MouseStep::OpenContextMenu(spot) => {
                self.show_menu(spot);
                effect(false, true, false)
            },
            MouseStep::ContextMenu(event) => {
                let open = self.context_menu;
                let paint = match event {
                    MenuMouse::Mark => marked,
                    MenuMouse::Choose => {
                        self.context_menu = false;
                        chosen.is_none()
                    },
                    MenuMouse::Type(_) => true,
                    MenuMouse::Nothing => false,
                };
                effect(false, open && paint, false)
            },
            _ => effect(false, false, false),
        }
    }
}

impl PointerState {
    /// What the pointer holds after a step. `list` are the dividers as they are
    /// shown afterwards, `moved` says that a drag changed them, and `rect` is
    /// where the Pane of the armed selection is shown.
    pub open spec fn pointed(
        self,
        after: PointerState,
        step: MouseStep,
        cx: u16,
        cy: u16,
        list: Seq<Divider>,
        moved: bool,
        rect: Option<Rect>,
        facts: PaneFacts,
    ) -> bool {
        match step {
            MouseStep::ToggleScope(ObservatoryTab::Agents) => after == (PointerState {
                agents_scroll: 0,
                ..self
            }),
            MouseStep::ToggleScope(ObservatoryTab::WebServers) => after == (PointerState {
                servers_scroll: 0,
                ..self
            }),
            MouseStep::ScrollObservatory { tab: ObservatoryTab::Agents, up } => after == (
            PointerState { agents_scroll: scrolled(self.agents_scroll as int, up) as usize, ..self
            }),
            MouseStep::ScrollObservatory { tab: ObservatoryTab::WebServers, up } => after == (
            PointerState {
                servers_scroll: scrolled(self.servers_scroll as int, up) as usize,
                ..self
            }),
            MouseStep::GrabDivider(divider) => after == (PointerState {
                divider: Some(divider),
                ..self
            }),
            MouseStep::DragDivider(divider) => if moved {
                &&& after == (PointerState { divider: after.divider, ..self })
                &&& after.divider matches Some(next)
                &&& followed(list, divider, cx as int, cy as int, next)
            } else {
                after == self
            },
            MouseStep::DropDivider => after == (PointerState { divider: None, ..self }),
            MouseStep::ResumeLive(_) | MouseStep::OpenContextMenu(_) => after == (PointerState {
                selection: None,
                ..self
            }),
            MouseStep::Pane { pane, step: over } => after == (PointerState {
                selection: pane_selection(self.selection, pane, over, rect, cx, cy, facts),
                ..self
            }),
            _ => after == self,
        }
    }

    pub fn new() -> (state: PointerState)
        ensures
            state == (PointerState {
                agents_scroll: 0,
                servers_scroll: 0,
                divider: None,
                selection: None,
            }),
    {
        PointerState { agents_scroll: 0, servers_scroll: 0, divider: None, selection: None }
    }
}

/// A step that leaves the windows alone but for the focus of one, or its
/// division, shows the same Panes.
proof fn lemma_pointed_shows(
    s: WorkspaceState,
    step: MouseStep,
    agent: Option<PaneId>,
    redivided: Option<LayoutNode>,
    toast: Option<PaneId>,
)
    requires
        s.wf(),
        redivided matches Some(layout) ==> layout.panes() == s.tab().layout.panes(),
    ensures
        shows_no_more(s.windows, s.pointed(step, agent, redivided, toast).windows, None),
{
    let w = s.active_window;
    match step {
        MouseStep::ForwardRightClick(pane) => {
            lemma_updated_tab(s.windows, w, s.move_focus(pane).windows[w], None);
        },
        MouseStep::ShowAgent(_) => {
            if let Some(pane) = agent {
                lemma_shown_pane(s, pane);
            }
        },
        MouseStep::OpenToast => {
            if let Some(pane) = toast {
                lemma_shown_pane(s, pane);
            }
        },
        MouseStep::DragDivider(_) => {
            if let Some(layout) = redivided {
                lemma_updated_tab(s.windows, w, Win { layout, ..s.tab() }, None);
            }
        },
        MouseStep::Pane { pane: Some(pane), step: over } if over.focuses() => {
            lemma_updated_tab(s.windows, w, Win { active: pane, ..s.tab() }, None);
        },
        _ => {
            assert(s.pointed(step, agent, redivided, toast).windows == s.windows);
        },
    }
}

proof fn lemma_shown_pane(s: WorkspaceState, pane: PaneId)
    requires
        s.wf(),
    ensures
        shows_no_more(s.windows, s.show_pane(pane).windows, None),
{
    crate::tabs::lemma_window_of_found(s.windows, pane);
    if let Some(w) = window_of(s.windows, pane) {
        lemma_updated_tab(s.windows, w, Win { active: pane, ..s.windows[w] }, None);
    }
}

impl Workspace {
    /// Carry out what a step does to the hierarchy. `agent` is the Pane of the
    /// card that was clicked, `redivided` the active Tab with the dragged
    /// divider under the pointer, where that changed it, and `toast` the Pane
    /// that a notice is about.
    pub fn apply_point(
        &mut self,
        step: MouseStep,
        agent: Option<PaneId>,
        redivided: Option<LayoutNode>,
        toast: Option<PaneId>,
    ) -> (out: PointEffect)
        requires
            old(self)@.wf(),
            redivided matches Some(layout) ==> layout.panes() == old(self)@.tab().layout.panes(),
        ensures
            final(self)@ == old(self)@.pointed(step, agent, redivided, toast),
            out == old(self)@.point_effect(step, agent, redivided, toast),
            final(self)@.wf(),
    {
        let ghost s = self@;
        proof {
            assert(s.windows[s.active_window].wf());
        }
        match step {
            MouseStep::ScrollTabs { up } => {
                self.scroll_tabs(up);
                effect(false, true, false)
            },
            MouseStep::ShowTab { position, menu: _ } => {
                let moved = self.select_tab(position);
                effect(moved, moved, moved)
            },
            MouseStep::ForwardRightClick(pane) => {
                let focus = self.windows[self.active_window].active != pane
                    && self.windows[self.active_window].layout.contains_pane(pane);
                if focus {
                    self.move_focus(pane);
                }
                effect(focus, focus, false)
            },
            MouseStep::ToggleScope(tab) => if tab == ObservatoryTab::Files {
                effect(false, false, false)
            } else {
                PointEffect { relayout: false, repaint: true, persist: false, remember: true }
            },
            MouseStep::ScrollObservatory { tab, up: _ } => effect(
                false,
                tab != ObservatoryTab::Files,
                false,
            ),
            MouseStep::ShowAgent(_) => {
                let shown = match agent {
                    Some(pane) => self.show_pane(pane),
                    None => false,
                };
                if shown {
                    let ghost there = self@;
                    self.tab_scroll_follow_active = true;
                    assert(self@ =~= (WorkspaceState { tab_scroll_follow_active: true, ..there }));
                }
                effect(shown, shown, shown)
            },
            MouseStep::FocusFiles | MouseStep::ResumeLive(_) => effect(false, true, false),
            MouseStep::ScrollProjects { up } => {
                self.scroll_projects(up);
                effect(false, true, false)
            },
            MouseStep::SwitchProject(project) => {
                let moved = self.switch_project(project);
                effect(moved, moved, moved)
            },
            MouseStep::HoverTile(tile) => {
                if self.overview.is_none() {
                    return effect(false, false, false);
                }
                match self.point_at_tile(tile, false) {
                    OverviewChange::Nothing => effect(false, false, false),
                    _ => effect(false, true, false),
                }
            },
            MouseStep::ClickTile(tile) => {
                if self.overview.is_none() {
                    return effect(false, false, false);
                }
                match self.point_at_tile(tile, true) {
                    OverviewChange::Switched => effect(true, true, true),
                    _ => effect(false, true, false),
                }
            },
            MouseStep::OpenToast => {
                let shown = match toast {
                    Some(pane) => self.show_pane(pane),
                    None => false,
                };
                effect(shown, true, false)
            },
            MouseStep::DragDivider(_) => {
                if self.windows[self.active_window].zoomed.is_some() {
                    return effect(false, false, false);
                }
                match redivided {
                    Some(layout) => {
                        self.redivide_tab(layout);
                        effect(true, true, false)
                    },
                    None => effect(false, false, false),
                }
            },
            MouseStep::DropDivider => effect(false, false, true),
            MouseStep::Pane { pane: Some(pane), step: PaneStep::Hover | PaneStep::Press } => {
                let focus = self.windows[self.active_window].active != pane
                    && self.windows[self.active_window].layout.contains_pane(pane);
                if focus {
                    self.focus_context_pane(pane);
                }
                effect(focus, focus, false)
            },
            _ => effect(false, false, false),
        }
    }
}

/// Carry out what an event over the Panes does to the armed selection.
fn point_at_panes(
    sel: &mut Option<MouseSel>,
    pane: Option<PaneId>,
    step: PaneStep,
    rect: Option<Rect>,
    cx: u16,
    cy: u16,
    facts: PaneFacts,
) -> (act: PaneAct)
    ensures
        act == pane_act(*old(sel), pane, step, rect, cx, cy, facts),
        *final(sel) == pane_selection(*old(sel), pane, step, rect, cx, cy, facts),
{
    match step {
        PaneStep::Nothing => PaneAct::Nothing,
        PaneStep::Hover => tell(pane, MouseKind::Hover),
        PaneStep::Press => match pane {
            Some(p) => {
                if arm_selection(sel, facts.client, p, facts.under, cx, cy, facts.freeze) {
                    PaneAct::Nothing
                } else {
                    tell(pane, MouseKind::Click)
                }
            },
            None => PaneAct::Nothing,
        },
        PaneStep::Drag => {
            let copying = match facts.held {
                Some(held) => held.copying,
                None => false,
            };
            match drag_selection(sel, rect.is_some() && facts.held.is_some(), copying) {
                Some(drag) => PaneAct::Select(drag),
                None => tell(pane, MouseKind::Drag),
            }
        },
        PaneStep::Release => {
            if facts.link {
                if let Some((client, _, _)) = plain_click_cell(*sel, rect, facts.held, cx, cy) {
                    *sel = None;
                    return PaneAct::OpenLink(client);
                }
            }
            match finish_selection(sel, facts.finished, facts.copy_on_select) {
                FinishStep::NotOurs => tell(pane, MouseKind::Release),
                end => PaneAct::Finish(end),
            }
        },
        PaneStep::Wheel { up } => match pane {
            Some(p) => PaneAct::Wheel { pane: p, up },
            None => PaneAct::Nothing,
        },
    }
}

impl PointerState {
    /// Carry out what a step does to what the pointer holds. `list` are the
    /// dividers as they are shown, `moved` says that a drag changed them, and
    /// `rect` is where the Pane of the armed selection is shown.
    pub fn apply_point(
        &mut self,
        step: MouseStep,
        cx: u16,
        cy: u16,
        list: &Vec<Divider>,
        moved: bool,
        rect: Option<Rect>,
        facts: PaneFacts,
    ) -> (act: PaneAct)
        ensures
            old(self).pointed(*final(self), step, cx, cy, list@, moved, rect, facts),
            act == step_act(old(self).selection, step, rect, cx, cy, facts),
    {
        match step {
            MouseStep::Pane { pane, step: over } => {
                return point_at_panes(&mut self.selection, pane, over, rect, cx, cy, facts);
            },
            MouseStep::ForwardRightClick(pane) => {
                return PaneAct::Tell { pane, kind: MouseKind::RightClick };
            },
            MouseStep::ToggleScope(ObservatoryTab::Agents) => {
                self.agents_scroll = 0;
            },
            MouseStep::ToggleScope(ObservatoryTab::WebServers) => {
                self.servers_scroll = 0;
            },
            MouseStep::ScrollObservatory { tab: ObservatoryTab::Agents, up } => {
                self.agents_scroll = scroll_list(self.agents_scroll, up);
            },
            MouseStep::ScrollObservatory { tab: ObservatoryTab::WebServers, up } => {
                self.servers_scroll = scroll_list(self.servers_scroll, up);
            },
            MouseStep::GrabDivider(divider) => {
                self.divider = Some(divider);
            },
            MouseStep::DragDivider(divider) => {
                if moved {
                    let next = match moved_divider(list, divider, cx, cy) {
                        Some(found) => found,
                        None => divider,
                    };
                    assert(followed(list@, divider, cx as int, cy as int, next));
                    self.divider = Some(next);
                }
            },
            MouseStep::DropDivider => {
                self.divider = None;
            },
            MouseStep::ResumeLive(_) | MouseStep::OpenContextMenu(_) => {
                self.selection = None;
            },
            _ => {},
        }
        PaneAct::Nothing
    }
}

/// What a step asks of a Pane.
pub open spec fn step_act(
    sel: Option<MouseSel>,
    step: MouseStep,
    rect: Option<Rect>,
    cx: u16,
    cy: u16,
    facts: PaneFacts,
) -> PaneAct {
    match step {
        MouseStep::Pane { pane, step: over } => pane_act(sel, pane, over, rect, cx, cy, facts),
        MouseStep::ForwardRightClick(pane) => PaneAct::Tell { pane, kind: MouseKind::RightClick },
        _ => PaneAct::Nothing,
    }
}

/// The Pane that a notice is about.
pub open spec fn toast_pane(toast: Option<Toast>) -> Option<PaneId> {
    match toast {
        Some(t) => Some(t.pane),
        None => None,
    }
}

impl Server {
    /// The server after a step that runs no command, but for the hierarchy.
    pub open spec fn pointed(self, step: MouseStep, workspace: Workspace, focused: bool) -> Server {
        Server {
            session: Session {
                workspace,
                view: self.session.view.pointed(step, focused),
                ..self.session
            },
            toast: if step is OpenToast {
                None
            } else {
                self.toast
            },
            agent_scope: if step == MouseStep::ToggleScope(ObservatoryTab::Agents) {
                self.agent_scope.other()
            } else {
                self.agent_scope
            },
            server_scope: if step == MouseStep::ToggleScope(ObservatoryTab::WebServers) {
                self.server_scope.other()
            } else {
                self.server_scope
            },
            ..self
        }
    }

    /// What of the screen a mouse event is held against: what the server knows
    /// of it, with the places in the chrome from `chrome`.
    pub fn aim(&self, pointer: &PointerState, chrome: PointerView) -> (view: PointerView)
        requires
            self.wf(),
        ensures
            view.panes@ == self.shown_panes(),
            view.dividers@ == tab_dividers(
                self.session.workspace@.tab(),
                self.session.canvas().chrome().area,
            ),
            view == (PointerView {
                canvas: self.session.canvas(),
                status_at_bottom: !self.runtime.config.status_top,
                observatory_tab: self.session.view.observatory_tab,
                panes: view.panes,
                dividers: view.dividers,
                focus_follows: self.runtime.config.focus_follows_mouse,
                menu_open: self.session.view.context_menu,
                toast: self.toast is Some,
                divider_drag: pointer.divider,
                armed: pointer.selection is Some,
                ..chrome
            }),
    {
        let canvas = self.session.current_canvas();
        let layout = self.session.workspace.relayout(&canvas);
        PointerView {
            canvas,
            status_at_bottom: !self.runtime.config.status_top,
            observatory_tab: self.session.view.observatory_tab,
            panes: layout.panes,
            dividers: layout.dividers,
            focus_follows: self.runtime.config.focus_follows_mouse,
            menu_open: self.session.view.context_menu,
            toast: self.toast.is_some(),
            divider_drag: pointer.divider,
            armed: pointer.selection.is_some(),
            ..chrome
        }
    }

    /// The Panes as the active Tab shows them.
    pub open spec fn shown_panes(self) -> Seq<PaneRect> {
        tab_rects(self.session.workspace@.tab(), self.session.canvas().chrome().area)
    }

    /// What a step leaves to do, in all.
    pub open spec fn point_effect(self, step: MouseStep, inputs: PointInputs, act: PaneAct) -> PointEffect {
        self.session.workspace@.point_effect(
            step,
            inputs.agent,
            inputs.redivided,
            toast_pane(self.toast),
        ).or(self.session.view.point_effect(step, inputs.marked, inputs.chosen)).or(
            PointEffect { repaint: act.paints(), ..PointEffect::none() },
        )
    }

    /// What a step gives besides.
    pub open spec fn points_out(self, step: MouseStep, inputs: PointInputs, out: Pointed) -> bool {
        &&& out.switch == match step {
            MouseStep::SelectObservatory(tab) => self.session.view.tab_switch(tab),
            _ => None,
        }
        &&& out.run == if step == MouseStep::ContextMenu(MenuMouse::Choose)
            && self.session.view.context_menu {
            inputs.chosen
        } else {
            None
        }
        &&& match step {
            MouseStep::ClickFile(_) | MouseStep::WheelFiles { .. } => {
                &&& out.files matches Some(files)
                &&& self.files.acted(inputs.file.action, files)
            },
            _ => out.files is None,
        }
    }

    /// What a step gives besides, before anything changed.
    fn point_out(
        &self,
        step: MouseStep,
        chosen: Option<ContextAction>,
        action: FileAction,
    ) -> (out: (Option<TabSwitch>, Option<ContextAction>, Option<FileActionStep>))
        ensures
            forall|inputs: PointInputs, whole: Pointed|
                inputs.chosen == chosen && inputs.file.action == action && whole.switch == out.0
                    && whole.run == out.1 && whole.files == out.2 ==> #[trigger] self.points_out(
                    step,
                    inputs,
                    whole,
                ),
    {
        let mut view = self.session.view;
        let switch = match step {
            MouseStep::SelectObservatory(tab) => view.select_observatory_tab(tab),
            _ => None,
        };
        let run = match step {
            MouseStep::ContextMenu(MenuMouse::Choose) => if self.session.view.context_menu {
                chosen
            } else {
                None
            },
            _ => None,
        };
        let files = match step {
            MouseStep::ClickFile(_) | MouseStep::WheelFiles { up: _ } => Some(
                self.files.handle_file_action(action),
            ),
            _ => None,
        };
        (switch, run, files)
    }

    /// Carry out the step that a mouse event asks for: a click or a hover moves
    /// the focus to the Pane under the pointer, a press arms a text selection,
    /// and a drag and a release go on with it. Steps about other clients leave
    /// the server as it is.
    #[verifier::rlimit(60)]
    pub fn apply_mouse(&mut self, pointer: &mut PointerState, step: MouseStep, inputs: PointInputs) -> (out:
        Pointed)
        requires
            old(self).wf(),
            !(step is NewTab),
            inputs.redivided matches Some(layout) ==> layout.panes() == old(
                self,
            ).session.workspace@.tab().layout.panes(),
        ensures
            final(self).wf(),
            final(self).session.workspace@ == old(self).session.workspace@.pointed(
                step,
                inputs.agent,
                inputs.redivided,
                toast_pane(old(self).toast),
            ),
            *final(self) == old(self).pointed(
                step,
                final(self).session.workspace,
                inputs.file.focused,
            ),
            out.effect == old(self).point_effect(step, inputs, out.act),
            out.act == step_act(
                old(pointer).selection,
                step,
                held_rect(old(pointer).selection, final(self).shown_panes()),
                inputs.cx,
                inputs.cy,
                inputs.panes,
            ),
            old(self).points_out(step, inputs, out),
            old(self).configured() ==> final(self).configured(),
            out.follow == final(self).session.follows(
                old(self).session.workspace@.active_project,
                Shift::Activated,
            ),
            old(pointer).pointed(
                *final(pointer),
                step,
                inputs.cx,
                inputs.cy,
                tab_dividers(
                    final(self).session.workspace@.tab(),
                    final(self).session.canvas().chrome().area,
                ),
                inputs.redivided is Some && old(self).session.workspace@.tab().zoomed is None,
                held_rect(old(pointer).selection, final(self).shown_panes()),
                inputs.panes,
            ),
    {
        let ghost s = self.session.workspace@;
        let PointInputs { cx, cy, agent, redivided, panes, marked, chosen, file } = inputs;
        let FileClick { action, focused } = file;
        let about: Option<PaneId> = match &self.toast {
            Some(toast) => Some(toast.pane),
            None => None,
        };
        let dragged = match step {
            MouseStep::DragDivider(_) => true,
            _ => false,
        };
        proof {
            lemma_pointed_shows(s, step, agent, redivided, about);
            lemma_ids_below(
                s.windows,
                s.pointed(step, agent, redivided, about).windows,
                None,
                self.next_pane_id as int,
            );
        }
        let before = self.session.workspace.active_project;
        let (switch, run, files) = self.point_out(step, chosen, action);
        let shape = self.session.workspace.apply_point(step, agent, redivided, about);
        let view = self.session.view.apply_point(step, focused, marked, chosen);
        match step {
            MouseStep::ToggleScope(ObservatoryTab::Agents) => {
                self.agent_scope = self.agent_scope.toggle();
            },
            MouseStep::ToggleScope(ObservatoryTab::WebServers) => {
                self.server_scope = self.server_scope.toggle();
            },
            MouseStep::OpenToast => {
                self.toast = None;
            },
            _ => {},
        }
        let canvas = self.session.current_canvas();
        let shown = self.session.workspace.relayout(&canvas);
        let rect = match &pointer.selection {
            Some(held) => shown.rect_of(held.pane),
            None => None,
        };
        let act = pointer.apply_point(
            step,
            cx,
            cy,
            &shown.dividers,
            dragged && shape.relayout,
            rect,
            panes,
        );
        let effect = PointEffect {
            relayout: shape.relayout || view.relayout,
            repaint: shape.repaint || view.repaint || act.repaints(),
            persist: shape.persist || view.persist,
            remember: shape.remember || view.remember,
        };
        let follow = self.session.follow_project(before, Shift::Activated);
        Pointed { effect, act, switch, run, files, follow }
    }

    /// Open a Tab from the Tab bar, which follows it. Without a Pane for it, the
    /// bar still follows the active Tab.
    pub fn open_tab(&mut self, spawned: Option<PaneId>) -> (out: PointEffect)
        requires
            old(self).wf(),
            spawned matches Some(pane) ==> unshown(
                old(self).session.workspace@.windows,
                pane,
            ) && pane.0 < old(self).next_pane_id,
        ensures
            final(self).wf(),
            ({
                let follow = (WorkspaceState {
                    tab_scroll_follow_active: true,
                    ..old(self).session.workspace@
                });
                final(self).session.workspace@ == match spawned {
                    Some(pane) => follow.push(pane),
                    None => follow,
                }
            }),
            *final(self) == (Server {
                session: Session {
                    workspace: final(self).session.workspace,
                    view: ViewState { context_menu: false, ..old(self).session.view },
                    ..old(self).session
                },
                ..*old(self)
            }),
            out == (PointEffect {
                relayout: spawned is Some,
                repaint: spawned is Some || old(self).session.view.context_menu,
                persist: true,
                remember: false,
            }),
    {
        let ghost s = self.session.workspace@;
        self.session.workspace.tab_scroll_follow_active = true;
        assert(self.session.workspace@ =~= (WorkspaceState { tab_scroll_follow_active: true, ..s }));
        let ran = self.command_session(
            Command::NewWindow,
            CommandInputs { spawned, neighbor: None, resized: None },
        );
        effect(ran.relayout, ran.repaint, ran.persist)
    }
}

/// A click on a Pane, and a hover where the focus follows the mouse, leaves the
/// focus with that Pane, and the Tab remembers which one had it.
pub proof fn lemma_pointer_focuses(
    s: WorkspaceState,
    view: PointerView,
    cx: u16,
    cy: u16,
    kind: MouseKind,
    pane: PaneId,
    over: PaneStep,
    agent: Option<PaneId>,
    redivided: Option<LayoutNode>,
    toast: Option<PaneId>,
)
    requires
        s.wf(),
        view.panes@ == tab_rects(s.tab(), view.canvas.chrome().area),
        s.mouse_step(view, cx, cy, kind) == (MouseStep::Pane { pane: Some(pane), step: over }),
        kind == MouseKind::Click || (kind == MouseKind::Hover && view.focus_follows),
    ensures
        ({
            let after = s.pointed(s.mouse_step(view, cx, cy, kind), agent, redivided, toast);
            &&& after.tab().active == pane
            &&& s.tab().active != pane ==> after.last_active_pane == Some(s.tab().active)
        }),
{
    let area = view.canvas.chrome().area;
    lemma_hit_listed(view.panes@, cx as int, cy as int, 0);
    let i = choose|i: int| 0 <= i < view.panes@.len() && (#[trigger] view.panes@[i]).pane == pane;
    assert(s.windows[s.active_window].wf());
    match s.tab().zoomed {
        Some(_) => {},
        None => {
            crate::layout::lemma_rects_panes(s.tab().layout, area);
            assert(s.tab().layout.panes()[i] == pane);
            assert(s.tab().layout.panes().contains(pane));
        },
    }
    assert(s.tab().shows(pane));
}

/// A click on a Tab of the Tab bar shows that Tab of the active Project.
pub proof fn lemma_tab_click_selects(
    s: WorkspaceState,
    view: PointerView,
    cx: u16,
    cy: u16,
    position: usize,
    menu: Option<Rect>,
    agent: Option<PaneId>,
    redivided: Option<LayoutNode>,
    toast: Option<PaneId>,
)
    requires
        s.wf(),
        s.windows.len() <= usize::MAX,
        s.mouse_step(view, cx, cy, MouseKind::Click) == (MouseStep::ShowTab { position, menu }),
        position < tabs_of(s.windows, s.active_project).len(),
    ensures
        s.pointed(
            s.mouse_step(view, cx, cy, MouseKind::Click),
            agent,
            redivided,
            toast,
        ).active_window == tabs_of(s.windows, s.active_project)[position as int],
{
    lemma_tabs_among(s.windows, s.active_project, s.windows.len());
}

/// A press in a Pane whose text may be selected, a drag and a release select the
/// text from the press on, wherever the pointer went, and leave nothing armed.
pub proof fn lemma_press_drag_release_selects(
    before: Option<MouseSel>,
    pane: PaneId,
    press: (u16, u16),
    pressed: PaneFacts,
    over: Option<PaneId>,
    rect: Rect,
    drag: (u16, u16),
    moved: PaneFacts,
    last: Option<PaneId>,
    place: Option<Rect>,
    release: (u16, u16),
    released: PaneFacts,
)
    requires
        pressed.under matches Some(facts) && (pressed.freeze || !owns_mouse(facts)),
        moved.held is Some,
    ensures
        ({
            let p = PaneStep::Press;
            let armed = pane_selection(before, Some(pane), p, None, press.0, press.1, pressed);
            let d = PaneStep::Drag;
            let held = pane_selection(armed, over, d, Some(rect), drag.0, drag.1, moved);
            let r = PaneStep::Release;
            &&& pane_act(armed, over, d, Some(rect), drag.0, drag.1, moved) == PaneAct::Select(
                DragStep {
                    pane,
                    enter_copy: !moved.held.unwrap().copying,
                    anchor: Some((press.0, press.1)),
                },
            )
            &&& pane_act(held, last, r, place, release.0, release.1, released) == PaneAct::Finish(
                if released.copy_on_select {
                    FinishStep::Yank(pane)
                } else {
                    FinishStep::Keep(pane)
                },
            )
            &&& pane_selection(held, last, r, place, release.0, release.1, released) is None
        }),
{
}

proof fn lemma_hit_listed(list: Seq<PaneRect>, cx: int, cy: int, i: int)
    requires
        0 <= i,
    ensures
        pane_hit(list, cx, cy, i) matches Some(pane) ==> exists|k: int|
            0 <= k < list.len() && (#[trigger] list[k]).pane == pane,
    decreases list.len() - i,
{
    if i < list.len() {
        if list[i].rect.has_cell(cx, cy) {
            assert(list[i].pane == pane_hit(list, cx, cy, i).unwrap());
        } else {
            lemma_hit_listed(list, cx, cy, i + 1);
        }
    }
}

/// The text of a selection that goes to the clipboard: nothing where it is
/// blank.
pub fn yanked(text: String) -> (clip: Option<String>)
    ensures
        clip == if crate::text::trimmed(text@).len() == 0 {
            None
        } else {
            Some(text)
        },
{
    let kept = trim(text.as_str());
    if kept.as_str().is_empty() {
        assert(kept@.len() == 0);
        None
    } else {
        Some(text)
    }
}

} // verus!
