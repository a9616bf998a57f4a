//! Commands: what a key binding, the command line or automation asks of the
//! Workspace.
use crate::focus::lemma_refocus_wf;
use crate::hierarchy::{lemma_activate, tabs_of, Win, Workspace, WorkspaceState};
use crate::layout::LayoutNode;
use crate::projects::{lemma_active_position, place_in, TabMoveDirection};
use crate::tabs::{lemma_tabs_among, ClosedPane};
use crate::types::{PaneId, SplitDir};
use vstd::prelude::*;

verus! {

#[derive(Clone, Copy, Debug, PartialEq, Eq, Structural)]
pub enum SplitAxis {
    LeftRight,
    TopBottom,
}

#[derive(Clone, Copy, Debug, PartialEq, Eq, Structural)]
pub enum FocusDir {
    Left,
    Right,
    Up,
    Down,
}

#[derive(Clone, Copy, Debug, PartialEq, Eq, Structural)]
pub enum Command {
    Split(SplitAxis),
    Focus(FocusDir),
    Overview,
    ZoomToggle,
    KillPane,
    NewWindow,
    NextWindow,
    PrevWindow,
    MoveTab(TabMoveDirection),
    LastPane,
    SelectWindow(u32),
    KillWindow,
    CopyMode,
    ResizePane(FocusDir),
    SidebarToggle,
    FileSidebarToggle,
    Observatory,
}

/// The tabs of the sidebar on the right.
#[derive(Clone, Copy, Debug, PartialEq, Eq, Structural)]
pub enum ObservatoryTab {
    Agents,
    Files,
    WebServers,
}

/// The parts of the view that commands switch.
#[derive(Clone, Copy, Debug, PartialEq, Eq, Structural)]
pub struct ViewState {
    pub context_menu: bool,
    pub sidebar: bool,
    pub file_sidebar: bool,
    pub observatory_tab: ObservatoryTab,
    pub files_focused: bool,
}

/// What a command leaves for the file tree to do.
#[derive(Clone, Copy, Debug, PartialEq, Eq, Structural)]
pub enum FileTreeChange {
    Nothing,
    /// Show the active Project's files, with the focus or without.
    Sync { focus: bool },
    /// Stop watching.
    Stop,
}

/// The split that an axis stands for.
pub open spec fn split_dir(axis: SplitAxis) -> SplitDir {
    match axis {
        SplitAxis::LeftRight => SplitDir::Horizontal,
        SplitAxis::TopBottom => SplitDir::Vertical,
    }
}

/// The split that a resize acts on, and its step in basis points.
pub open spec fn resize_step(dir: FocusDir) -> (SplitDir, int) {
    match dir {
        FocusDir::Left => (SplitDir::Horizontal, -500int),
        FocusDir::Right => (SplitDir::Horizontal, 500int),
        FocusDir::Up => (SplitDir::Vertical, -500int),
        FocusDir::Down => (SplitDir::Vertical, 500int),
    }
}

/// The split that a resize acts on, and its step in basis points.
pub fn resize_command(dir: FocusDir) -> (step: (SplitDir, i16))
    ensures
        step.0 == resize_step(dir).0,
        step.1 == resize_step(dir).1,
        step.0 is Vertical <==> dir is Up || dir is Down,
        step.1 > 0 <==> dir is Down || dir is Right,
        step.1 == 500 || step.1 == -500,
{
    match dir {
        FocusDir::Left => (SplitDir::Horizontal, -500),
        FocusDir::Right => (SplitDir::Horizontal, 500),
        FocusDir::Up => (SplitDir::Vertical, -500),
        FocusDir::Down => (SplitDir::Vertical, 500),
    }
}

impl Command {
    /// The command opens a Pane.
    pub open spec fn spawns(self) -> bool {
        self is Split || self is NewWindow
    }

    /// Whether the command opens a Pane.
    pub fn needs_pane(&self) -> (needs: bool)
        ensures
            needs == self.spawns(),
    {
        match self {
            Command::Split(_) | Command::NewWindow => true,
            _ => false,
        }
    }
}

impl WorkspaceState {
    /// The active Tab replaced.
    pub open spec fn with_tab(self, win: Win) -> WorkspaceState {
        WorkspaceState { windows: self.windows.update(self.active_window, win), ..self }
    }

    /// The active Tab.
    pub open spec fn tab(self) -> Win {
        self.windows[self.active_window]
    }

    /// The state after the focus moved to another Pane of the active Tab.
    pub open spec fn move_focus(self, pane: PaneId) -> WorkspaceState {
        WorkspaceState {
            last_active_pane: Some(self.tab().active),
            ..self.with_tab(Win { active: pane, zoomed: None, ..self.tab() })
        }
    }

    /// The state with the overview opened on the active Tab, or closed.
    pub open spec fn toggle_overview(self) -> WorkspaceState {
        WorkspaceState {
            overview: match self.overview {
                Some(_) => None,
                None => Some(self.active_position() as usize),
            },
            ..self
        }
    }

    /// The state with the focused Pane zoomed, or the zoom dropped.
    pub open spec fn toggle_zoom(self) -> WorkspaceState {
        self.with_tab(
            Win {
                zoomed: if self.tab().zoomed is Some {
                    None
                } else {
                    Some(self.tab().active)
                },
                ..self.tab()
            },
        )
    }

    /// The Tab that comes next, or before, in the Project's Tab bar; `None`
    /// where there is only one.
    pub open spec fn cycled(self, forward: bool) -> Option<int> {
        let tabs = tabs_of(self.windows, self.active_project);
        let n = tabs.len() as int;
        let at = self.active_position();
        if n > 1 {
            Some(
                tabs[if forward {
                    if at + 1 == n {
                        0
                    } else {
                        at + 1
                    }
                } else {
                    if at == 0 {
                        n - 1
                    } else {
                        at - 1
                    }
                }] as int,
            )
        } else {
            None
        }
    }

    /// The state after a step along the Project's Tab bar.
    pub open spec fn cycle(self, forward: bool) -> WorkspaceState {
        match self.cycled(forward) {
            Some(index) => self.activate(index),
            None => self,
        }
    }

    /// The Pane that had the focus before, if the active Tab shows it.
    pub open spec fn previous_pane(self) -> Option<PaneId> {
        match self.last_active_pane {
            Some(pane) => if self.tab().shows(pane) {
                Some(pane)
            } else {
                None
            },
            None => None,
        }
    }

    /// The state after the focus went back to the Pane that had it before.
    pub open spec fn focus_previous(self) -> WorkspaceState {
        match self.previous_pane() {
            Some(pane) => self.move_focus(pane),
            None => self,
        }
    }

    /// The Tab at a position of the Project's Tab bar, unless it is the active
    /// one.
    pub open spec fn selectable(self, n: int) -> Option<int> {
        let tabs = tabs_of(self.windows, self.active_project);
        if 0 <= n < tabs.len() && tabs[n] != self.active_window {
            Some(tabs[n] as int)
        } else {
            None
        }
    }

    /// The state after a Tab was selected by its position.
    pub open spec fn select_tab(self, n: int) -> WorkspaceState {
        match self.selectable(n) {
            Some(index) => self.activate(index),
            None => self,
        }
    }

    /// The state after the first `n` of these Panes closed, up to the one that
    /// leaves no Tab.
    pub open spec fn close_all(self, panes: Seq<PaneId>, n: nat) -> WorkspaceState
        decreases n,
    {
        if n == 0 {
            self
        } else {
            let before = self.close_all(panes, (n - 1) as nat);
            if before.windows.len() == 0 {
                before
            } else {
                before.close(panes[n - 1])
            }
        }
    }
}

proof fn lemma_cycled(s: WorkspaceState, forward: bool)
    requires
        s.wf(),
        s.windows.len() <= usize::MAX,
    ensures
        s.cycled(forward) matches Some(index) ==> {
            &&& 0 <= index < s.windows.len()
            &&& s.windows[index].project == s.active_project
        },
{
    lemma_active_position(s);
    lemma_tabs_among(s.windows, s.active_project, s.windows.len());
    let tabs = tabs_of(s.windows, s.active_project);
    let n = tabs.len() as int;
    let at = s.active_position();
    if n > 1 {
        let to = if forward {
            if at + 1 == n {
                0
            } else {
                at + 1
            }
        } else {
            if at == 0 {
                n - 1
            } else {
                at - 1
            }
        };
        assert(0 <= tabs[to] < s.windows.len());
    }
}

impl Workspace {
    /// The Tab-bar position of the active Tab.
    fn active_place(&self) -> (place: (Vec<usize>, usize))
        requires
            self@.wf(),
        ensures
            place.0@ == tabs_of(self@.windows, self@.active_project),
            place.1 == self@.active_position(),
            place_in(place.0@, self@.active_window, place.1 as int),
    {
        assert(self.windows.len() <= usize::MAX);
        proof {
            lemma_active_position(self@);
        }
        let tabs = self.project_window_indices(self.active_project);
        let mut at: usize = 0;
        while tabs[at] != self.active_window
            invariant
                tabs@ == tabs_of(self@.windows, self@.active_project),
                at < tabs@.len(),
                at <= self@.active_position(),
                place_in(tabs@, self@.active_window, self@.active_position()),
            decreases tabs@.len() - at,
        {
            assert(at < tabs.len());
            at += 1;
        }
        assert(place_in(tabs@, self@.active_window, at as int));
        (tabs, at)
    }

    /// Move the focus to another Pane of the active Tab.
    pub fn move_focus(&mut self, pane: PaneId)
        requires
            old(self)@.wf(),
            old(self)@.tab().shows(pane),
        ensures
            final(self)@ == old(self)@.move_focus(pane),
            final(self)@.wf(),
            old(self)@.all_open() ==> final(self)@.all_open(),
    {
        let ghost s = self@;
        let w: usize = self.active_window;
        proof {
            assert(s.windows[w as int].wf());
            let win = Win { active: pane, zoomed: None, ..s.tab() };
            lemma_refocus_wf(s, w as int, win);
        }
        self.last_active_pane = Some(self.windows[w].active);
        self.windows[w].active = pane;
        self.windows[w].zoomed = None;
        assert(self@.windows =~= s.move_focus(pane).windows);
    }

    /// Open the overview on the active Tab, or close it.
    pub fn toggle_overview(&mut self)
        requires
            old(self)@.wf(),
        ensures
            final(self)@ == old(self)@.toggle_overview(),
            final(self)@.wf(),
            old(self)@.all_open() ==> final(self)@.all_open(),
    {
        let ghost s = self@;
        self.overview = match self.overview {
            Some(_) => None,
            None => {
                let (_, at) = self.active_place();
                Some(at)
            },
        };
        assert(self@ =~= s.toggle_overview());
    }

    /// Zoom the focused Pane, or drop the zoom.
    pub fn toggle_zoom(&mut self)
        requires
            old(self)@.wf(),
        ensures
            final(self)@ == old(self)@.toggle_zoom(),
            final(self)@.wf(),
            old(self)@.all_open() ==> final(self)@.all_open(),
    {
        let ghost s = self@;
        let w: usize = self.active_window;
        proof {
            assert(s.windows[w as int].wf());
            lemma_refocus_wf(s, w as int, s.toggle_zoom().tab());
        }
        self.windows[w].zoomed = if self.windows[w].zoomed.is_some() {
            None
        } else {
            Some(self.windows[w].active)
        };
        assert(self@.windows =~= s.toggle_zoom().windows);
    }

    /// Step along the Project's Tab bar; whether there was another Tab.
    pub fn cycle_tabs(&mut self, forward: bool) -> (moved: bool)
        requires
            old(self)@.wf(),
        ensures
            final(self)@ == old(self)@.cycle(forward),
            moved == (old(self)@.cycled(forward) is Some),
            final(self)@.wf(),
            old(self)@.all_open() ==> final(self)@.all_open(),
    {
        let (tabs, at) = self.active_place();
        if tabs.len() <= 1 {
            return false;
        }
        let to: usize = if forward {
            if at + 1 == tabs.len() {
                0
            } else {
                at + 1
            }
        } else {
            if at == 0 {
                tabs.len() - 1
            } else {
                at - 1
            }
        };
        proof {
            assert(self.windows.len() <= usize::MAX);
            lemma_cycled(self@, forward);
            lemma_activate(self@, tabs@[to as int] as int);
        }
        self.activate_window(tabs[to]);
        true
    }

    /// Give the focus back to the Pane that had it before; whether the active
    /// Tab shows that Pane.
    pub fn focus_previous(&mut self) -> (moved: bool)
        requires
            old(self)@.wf(),
        ensures
            final(self)@ == old(self)@.focus_previous(),
            moved == (old(self)@.previous_pane() is Some),
            final(self)@.wf(),
            old(self)@.all_open() ==> final(self)@.all_open(),
    {
        match self.last_active_pane {
            Some(pane) => {
                if self.windows[self.active_window].layout.contains_pane(pane) {
                    self.move_focus(pane);
                    true
                } else {
                    false
                }
            },
            None => false,
        }
    }

    /// Select a Tab by its position in the Tab bar; whether that changed
    /// anything.
    pub fn select_tab(&mut self, n: usize) -> (moved: bool)
        requires
            old(self)@.wf(),
        ensures
            final(self)@ == old(self)@.select_tab(n as int),
            moved == (old(self)@.selectable(n as int) is Some),
            final(self)@.wf(),
            old(self)@.all_open() ==> final(self)@.all_open(),
    {
        let tabs = self.project_window_indices(self.active_project);
        if n < tabs.len() && tabs[n] != self.active_window {
            proof {
                assert(self.windows.len() <= usize::MAX);
                lemma_tabs_among(self@.windows, self@.active_project, self@.windows.len());
                lemma_activate(self@, tabs@[n as int] as int);
            }
            self.activate_window(tabs[n]);
            true
        } else {
            false
        }
    }

    /// Close every Pane of the active Tab in turn, until no Tab is left. Gives
    /// what each closing did.
    pub fn close_tab(&mut self) -> (done: Vec<ClosedPane>)
        requires
            old(self)@.wf(),
        ensures
            ({
                let panes = old(self)@.tab().layout.panes();
                &&& 1 <= done@.len() <= panes.len()
                &&& final(self)@ == old(self)@.close_all(panes, done@.len())
                &&& forall|i: int|
                    0 <= i < done@.len() ==> (#[trigger] done@[i]) == old(self)@.close_all(
                        panes,
                        i as nat,
                    ).closing(panes[i])
                &&& forall|i: int|
                    0 <= i < done@.len() - 1 ==> !(#[trigger] done@[i]).stopped
                &&& done@.last().stopped == (final(self)@.windows.len() == 0)
                &&& !done@.last().stopped ==> done@.len() == panes.len()
                &&& !done@.last().stopped ==> final(self)@.wf()
            }),
    {
        let ghost s = self@;
        let panes = self.windows[self.active_window].layout.pane_ids();
        let mut done: Vec<ClosedPane> = Vec::new();
        let mut i: usize = 0;
        proof {
            crate::layout::lemma_panes_nonempty(s.tab().layout);
        }
        while i < panes.len()
            invariant
                panes@ == s.tab().layout.panes(),
                s == old(self)@,
                panes@.len() > 0,
                i <= panes@.len(),
                done@.len() == i,
                self@ == s.close_all(panes@, i as nat),
                self@.wf(),
                forall|k: int| 0 <= k < done@.len() ==> !(#[trigger] done@[k]).stopped,
                forall|k: int|
                    0 <= k < done@.len() ==> (#[trigger] done@[k]) == s.close_all(
                        panes@,
                        k as nat,
                    ).closing(panes@[k]),
            decreases panes@.len() - i,
        {
            let ghost before = self@;
            let one = self.close_pane(panes[i]);
            done.push(one);
            i += 1;
            if one.stopped {
                assert(before.close(panes@[i - 1]) == s.close_all(panes@, i as nat));
                proof {
                    lemma_stopped_empty(before, panes@[i - 1]);
                }
                return done;
            }
        }
        done
    }

    /// Give the active Tab another division of its room.
    pub fn redivide_tab(&mut self, layout: LayoutNode)
        requires
            old(self)@.wf(),
            layout.panes() == old(self)@.tab().layout.panes(),
        ensures
            final(self)@ == old(self)@.with_tab(Win { layout, ..old(self)@.tab() }),
            final(self)@.wf(),
            old(self)@.all_open() ==> final(self)@.all_open(),
    {
        let ghost s = self@;
        let w: usize = self.active_window;
        proof {
            assert(s.windows[w as int].wf());
            let win = Win { layout, ..s.tab() };
            lemma_refocus_wf(s, w as int, win);
        }
        self.windows[w].layout = layout;
        assert(self@.windows =~= s.with_tab(Win { layout, ..s.tab() }).windows);
    }
}

proof fn lemma_stopped_empty(s: WorkspaceState, pane: PaneId)
    requires
        s.wf(),
        s.windows_without(pane).len() == 0,
    ensures
        s.close(pane).windows.len() == 0,
{
}

/// What a command finds outside the Workspace.
#[derive(Debug)]
pub struct CommandInputs {
    /// The Pane that was opened for it.
    pub spawned: Option<PaneId>,
    /// The Pane next to the focused one, in the direction of the command.
    pub neighbor: Option<PaneId>,
    /// The active Tab with its room divided anew, where that changed it.
    pub resized: Option<LayoutNode>,
}

/// What a command leaves to do.
#[derive(Debug)]
pub struct CommandEffect {
    pub relayout: bool,
    pub repaint: bool,
    pub save_config: bool,
    pub copy_mode: bool,
    pub files: FileTreeChange,
    /// What each Pane that the command closed did to the hierarchy.
    pub closed: Vec<ClosedPane>,
    pub persist: bool,
}

impl WorkspaceState {
    /// The state after a command.
    pub open spec fn commanded(self, cmd: Command, inputs: CommandInputs) -> WorkspaceState {
        match cmd {
            Command::Split(axis) => match inputs.spawned {
                Some(pane) => self.split_active(pane, split_dir(axis)),
                None => self,
            },
            Command::NewWindow => match inputs.spawned {
                Some(pane) => self.push(pane),
                None => self,
            },
            Command::Focus(_) => match inputs.neighbor {
                Some(pane) => self.move_focus(pane),
                None => self,
            },
            Command::Overview => self.toggle_overview(),
            Command::ZoomToggle => self.toggle_zoom(),
            Command::KillPane => self.close(self.tab().active),
            Command::NextWindow => self.cycle(true),
            Command::PrevWindow => self.cycle(false),
            Command::MoveTab(direction) => if self.tab_move(direction) is Some {
                self.move_tab(direction)
            } else {
                self
            },
            Command::LastPane => self.focus_previous(),
            Command::SelectWindow(n) => self.select_tab(n as int),
            Command::ResizePane(_) => match inputs.resized {
                Some(layout) => self.with_tab(Win { layout, ..self.tab() }),
                None => self,
            },
            _ => self,
        }
    }

    /// The command changes where things are shown.
    pub open spec fn moves(self, cmd: Command, inputs: CommandInputs) -> bool {
        match cmd {
            Command::Split(_) | Command::NewWindow => inputs.spawned is Some,
            Command::Focus(_) => inputs.neighbor is Some,
            Command::ZoomToggle => true,
            Command::NextWindow => self.cycled(true) is Some,
            Command::PrevWindow => self.cycled(false) is Some,
            Command::MoveTab(direction) => self.tab_move(direction) is Some,
            Command::LastPane => self.previous_pane() is Some,
            Command::SelectWindow(n) => self.selectable(n as int) is Some,
            Command::ResizePane(_) => inputs.resized is Some,
            Command::SidebarToggle | Command::FileSidebarToggle | Command::Observatory => true,
            _ => false,
        }
    }
}

impl ViewState {
    /// The view after a command. Every command dismisses the context menu.
    pub open spec fn commanded(self, cmd: Command) -> ViewState {
        let open = ViewState { context_menu: false, ..self };
        match cmd {
            Command::SidebarToggle => ViewState { sidebar: !self.sidebar, ..open },
            Command::FileSidebarToggle => if !self.file_sidebar || self.observatory_tab
                != ObservatoryTab::Files {
                ViewState { file_sidebar: true, observatory_tab: ObservatoryTab::Files, ..open }
            } else {
                ViewState { file_sidebar: false, files_focused: false, ..open }
            },
            Command::Observatory => if self.file_sidebar {
                ViewState { file_sidebar: false, files_focused: false, ..open }
            } else {
                ViewState { file_sidebar: true, ..open }
            },
            _ => open,
        }
    }

    /// What a command leaves for the file tree to do.
    pub open spec fn file_tree(self, cmd: Command) -> FileTreeChange {
        match cmd {
            Command::FileSidebarToggle => if self.commanded(cmd).file_sidebar {
                FileTreeChange::Sync { focus: true }
            } else {
                FileTreeChange::Stop
            },
            Command::Observatory => if !self.commanded(cmd).file_sidebar {
                FileTreeChange::Stop
            } else if self.observatory_tab == ObservatoryTab::Files {
                FileTreeChange::Sync { focus: false }
            } else {
                FileTreeChange::Nothing
            },
            _ => FileTreeChange::Nothing,
        }
    }

    /// Switch the view as a command asks.
    pub fn apply_command(&mut self, cmd: Command) -> (files: FileTreeChange)
        ensures
            *final(self) == old(self).commanded(cmd),
            files == old(self).file_tree(cmd),
    {
        self.context_menu = false;
        match cmd {
            Command::SidebarToggle => {
                self.sidebar = !self.sidebar;
                FileTreeChange::Nothing
            },
            Command::FileSidebarToggle => {
                self.file_sidebar = !self.file_sidebar || self.observatory_tab
                    != ObservatoryTab::Files;
                if self.file_sidebar {
                    self.observatory_tab = ObservatoryTab::Files;
                    FileTreeChange::Sync { focus: true }
                } else {
                    self.files_focused = false;
                    FileTreeChange::Stop
                }
            },
            Command::Observatory => {
                self.file_sidebar = !self.file_sidebar;
                if self.file_sidebar && self.observatory_tab == ObservatoryTab::Files {
                    FileTreeChange::Sync { focus: false }
                } else if !self.file_sidebar {
                    self.files_focused = false;
                    FileTreeChange::Stop
                } else {
                    FileTreeChange::Nothing
                }
            },
            _ => FileTreeChange::Nothing,
        }
    }
}

/// The command switches a part of the view that the settings remember.
pub open spec fn is_saved(cmd: Command) -> bool {
    cmd is SidebarToggle || cmd is FileSidebarToggle || cmd is Observatory
}

impl Workspace {
    /// Carry out a command.
    pub fn handle_command(&mut self, view: &mut ViewState, cmd: Command, inputs: CommandInputs) -> (effect:
        CommandEffect)
        requires
            old(self)@.wf(),
            inputs.spawned matches Some(pane) ==> crate::hierarchy::unshown(
                old(self)@.windows,
                pane,
            ),
            inputs.neighbor matches Some(pane) ==> old(self)@.tab().shows(pane),
            inputs.resized matches Some(layout) ==> layout.panes() == old(
                self,
            )@.tab().layout.panes(),
        ensures
            *final(view) == old(view).commanded(cmd),
            effect.files == old(view).file_tree(cmd),
            effect.relayout == old(self)@.moves(cmd, inputs),
            effect.save_config == is_saved(cmd),
            effect.copy_mode == (cmd is CopyMode),
            cmd is KillWindow ==> {
                let panes = old(self)@.tab().layout.panes();
                &&& 1 <= effect.closed@.len() <= panes.len()
                &&& final(self)@ == old(self)@.close_all(panes, effect.closed@.len())
                &&& forall|i: int|
                    0 <= i < effect.closed@.len() ==> (#[trigger] effect.closed@[i]) == old(
                        self,
                    )@.close_all(panes, i as nat).closing(panes[i])
                &&& effect.closed@.last().stopped == (final(self)@.windows.len() == 0)
                &&& !effect.closed@.last().stopped ==> effect.closed@.len() == panes.len()
            },
            !(cmd is KillWindow) ==> final(self)@ == old(self)@.commanded(cmd, inputs),
            !(cmd is KillWindow) && !(cmd is KillPane) ==> effect.closed@.len() == 0,
            cmd is KillPane ==> effect.closed@ == seq![
                old(self)@.closing(old(self)@.tab().active),
            ],
            effect.persist == !(cmd is KillWindow && final(self)@.windows.len() == 0),
            effect.repaint == (effect.persist && (effect.relayout || cmd is Overview || old(
                view,
            ).context_menu)),
            final(self)@.windows.len() > 0 ==> final(self)@.wf(),
    {
        let ghost s = self@;
        let dismissed = view.context_menu;
        let files = view.apply_command(cmd);
        let mut closed: Vec<ClosedPane> = Vec::new();
        let mut relayout = false;
        let mut persist = true;
        proof {
            assert(s.windows[s.active_window].wf());
        }
        match cmd {
            Command::Split(axis) => {
                let dir = match axis {
                    SplitAxis::LeftRight => SplitDir::Horizontal,
                    SplitAxis::TopBottom => SplitDir::Vertical,
                };
                if let Some(pane) = inputs.spawned {
                    self.split_active_pane(pane, dir);
                    relayout = true;
                }
            },
            Command::NewWindow => {
                if let Some(pane) = inputs.spawned {
                    self.push_window(pane);
                    relayout = true;
                }
            },
            Command::Focus(_) => {
                if let Some(pane) = inputs.neighbor {
                    self.move_focus(pane);
                    relayout = true;
                }
            },
            Command::Overview => {
                self.toggle_overview();
            },
            Command::ZoomToggle => {
                self.toggle_zoom();
                relayout = true;
            },
            Command::KillPane => {
                let active = self.windows[self.active_window].active;
                let one = self.close_pane(active);
                closed.push(one);
                proof {
                    if one.stopped {
                        lemma_stopped_empty(s, active);
                    }
                }
            },
            Command::NextWindow => {
                relayout = self.cycle_tabs(true);
            },
            Command::PrevWindow => {
                relayout = self.cycle_tabs(false);
            },
            Command::MoveTab(direction) => {
                relayout = self.move_active_tab(direction).is_some();
            },
            Command::LastPane => {
                relayout = self.focus_previous();
            },
            Command::SelectWindow(n) => {
                relayout = self.select_tab(n as usize);
            },
            Command::KillWindow => {
                closed = self.close_tab();
                if closed[closed.len() - 1].stopped {
                    persist = false;
                }
            },
            Command::ResizePane(_) => {
                if let Some(layout) = inputs.resized {
                    self.redivide_tab(layout);
                    relayout = true;
                }
            },
            Command::CopyMode => {},
            Command::SidebarToggle | Command::FileSidebarToggle | Command::Observatory => {
                relayout = true;
            },
        }
        let overview = match cmd {
            Command::Overview => true,
            _ => false,
        };
        let copy_mode = match cmd {
            Command::CopyMode => true,
            _ => false,
        };
        let save_config = match cmd {
            Command::SidebarToggle | Command::FileSidebarToggle | Command::Observatory => true,
            _ => false,
        };
        CommandEffect {
            relayout,
            repaint: persist && (relayout || overview || dismissed),
            save_config,
            copy_mode,
            files,
            closed,
            persist,
        }
    }
}

/// Stepping to the next Tab and back shows the same Tab again.
pub proof fn lemma_cycle_undoes(s: WorkspaceState)
    requires
        s.wf(),
        s.windows.len() <= usize::MAX,
    ensures
        s.cycle(true).cycle(false).active_window == s.active_window,
        s.cycle(false).cycle(true).active_window == s.active_window,
{
    lemma_active_position(s);
    lemma_tabs_among(s.windows, s.active_project, s.windows.len());
    lemma_cycled(s, true);
    lemma_cycled(s, false);
    let tabs = tabs_of(s.windows, s.active_project);
    if tabs.len() > 1 {
        let a = s.cycled(true)->0;
        let b = s.cycled(false)->0;
        lemma_activate(s, a);
        lemma_activate(s, b);
        let next = s.cycle(true);
        let back = s.cycle(false);
        lemma_active_position(next);
        lemma_active_position(back);
        let at = s.active_position();
        let n = tabs.len() as int;
        let up = if at + 1 == n {
            0
        } else {
            at + 1
        };
        let down = if at == 0 {
            n - 1
        } else {
            at - 1
        };
        assert(place_in(tabs, next.active_window, up));
        assert(place_in(tabs, back.active_window, down));
        assert(next.active_position() == up);
        assert(back.active_position() == down);
    }
}

/// Zooming twice restores the Tab, unless the focus was elsewhere than the
/// zoomed Pane.
pub proof fn lemma_zoom_undoes(s: WorkspaceState)
    requires
        s.wf(),
        s.tab().zoomed matches Some(pane) ==> pane == s.tab().active,
    ensures
        s.toggle_zoom().toggle_zoom() == s,
{
    let twice = s.toggle_zoom().toggle_zoom();
    assert(twice.windows =~= s.windows);
    assert(twice =~= s);
}

/// A split along an axis stands where the axis says. Above and below, the old and
/// the new Pane keep the columns of the one that was split, and the new one is
/// below; left and right, they keep its rows, and the new one is on the right.
/// Both get the same room to within a cell, every other Pane stays in its place,
/// and the new one has the focus.
pub proof fn lemma_split_stands_along_its_axis(
    s: WorkspaceState,
    axis: SplitAxis,
    inputs: CommandInputs,
    area: crate::types::Rect,
    k: int,
)
    requires
        s.wf(),
        area.fits(),
        inputs.spawned is Some,
        crate::hierarchy::unshown(s.windows, inputs.spawned->0),
        0 <= k < s.tab().layout.panes().len(),
        s.tab().layout.panes()[k] == s.tab().active,
    ensures
        ({
            let t = s.commanded(Command::Split(axis), inputs);
            let old = crate::layout::rects(s.tab().layout, area);
            let out = crate::layout::rects(t.tab().layout, area);
            let r = old[k].rect;
            let a = out[k].rect;
            let b = out[k + 1].rect;
            &&& t.active_window == s.active_window
            &&& t.windows.len() == s.windows.len()
            &&& forall|i: int|
                0 <= i < s.windows.len() && i != s.active_window ==> #[trigger] t.windows[i]
                    == s.windows[i]
            &&& t.tab().active == inputs.spawned->0
            &&& t.tab().zoomed is None
            &&& t.tab().project == s.tab().project
            &&& t.tab().name == s.tab().name
            &&& t.last_active_pane == Some(s.tab().active)
            &&& out.len() == old.len() + 1
            &&& out[k].pane == s.tab().active
            &&& out[k + 1].pane == inputs.spawned->0
            &&& forall|j: int| 0 <= j < k ==> #[trigger] out[j] == old[j]
            &&& forall|j: int| k < j < old.len() ==> out[j + 1] == #[trigger] old[j]
            &&& axis is TopBottom ==> {
                &&& a.x == r.x && a.w == r.w
                &&& b.x == r.x && b.w == r.w
                &&& a.y == r.y
                &&& a.bottom() <= b.y
                &&& b.bottom() == r.bottom()
                &&& -1 <= a.h - b.h <= 1
                &&& r.h > 0 ==> a.bottom() + 1 == b.y
            }
            &&& axis is LeftRight ==> {
                &&& a.y == r.y && a.h == r.h
                &&& b.y == r.y && b.h == r.h
                &&& a.x == r.x
                &&& a.right() <= b.x
                &&& b.right() == r.right()
                &&& -1 <= a.w - b.w <= 1
                &&& r.w > 0 ==> a.right() + 1 == b.x
            }
        }),
{
    assert(s.windows[s.active_window].wf());
    crate::layout::lemma_split_divides_the_pane(
        s.tab().layout,
        s.tab().active,
        split_dir(axis),
        inputs.spawned->0,
        area,
        k,
    );
}

/// A resize moves the divider of a split the way that its key points, across the
/// whole of it and by the twentieth part of a split's share: up and down the
/// divider between Panes one above the other, left and right the one between
/// Panes side by side.
pub proof fn lemma_resize_moves_the_divider_its_way(
    dir: FocusDir,
    ratio: u16,
    first: LayoutNode,
    second: LayoutNode,
    area: crate::types::Rect,
)
    requires
        area.fits(),
        500 <= ratio <= 9_500,
    ensures
        ({
            let (axis, step) = resize_step(dir);
            let before = LayoutNode::Split {
                dir: axis,
                ratio,
                first: Box::new(first),
                second: Box::new(second),
            };
            let after = LayoutNode::Split {
                dir: axis,
                ratio: (ratio + step) as u16,
                first: Box::new(first),
                second: Box::new(second),
            };
            let d = crate::layout::dividers(before, area)[0].rect;
            let e = crate::layout::dividers(after, area)[0].rect;
            &&& step == 500 || step == -500
            &&& d.w == e.w
            &&& d.h == e.h
            &&& dir is Up || dir is Down ==> d.x == area.x && e.x == area.x && d.w == area.w
            &&& dir is Left || dir is Right ==> d.y == area.y && e.y == area.y && d.h == area.h
            &&& dir is Up ==> e.y <= d.y && (area.h > 20 ==> e.y < d.y)
            &&& dir is Down ==> e.y >= d.y && (area.h > 20 ==> e.y > d.y)
            &&& dir is Left ==> e.x <= d.x && (area.w > 20 ==> e.x < d.x)
            &&& dir is Right ==> e.x >= d.x && (area.w > 20 ==> e.x > d.x)
        }),
{
    let (axis, step) = resize_step(dir);
    let moved = (ratio + step) as u16;
    assert(area.h > 20 ==> (area.h - 1) * 500 >= 10_000);
    assert(area.w > 20 ==> (area.w - 1) * 500 >= 10_000);
    if moved < ratio {
        crate::layout::lemma_share_moves_the_divider(area, axis, moved, ratio);
    } else {
        crate::layout::lemma_share_moves_the_divider(area, axis, ratio, moved);
    }
    crate::layout::lemma_divider_first(axis, ratio, first, second, area);
    crate::layout::lemma_divider_first(axis, moved, first, second, area);
}

/// What a resize came to is what the Tab shows; without a change, nothing is
/// touched.
pub proof fn lemma_resized_tab_is_shown(s: WorkspaceState, dir: FocusDir, inputs: CommandInputs)
    requires
        s.wf(),
    ensures
        ({
            let t = s.commanded(Command::ResizePane(dir), inputs);
            &&& inputs.resized is None ==> t == s
            &&& inputs.resized matches Some(layout) ==> {
                &&& t.tab().layout == layout
                &&& t.tab().active == s.tab().active
                &&& t.tab().zoomed == s.tab().zoomed
                &&& t.active_window == s.active_window
                &&& forall|i: int|
                    0 <= i < s.windows.len() && i != s.active_window ==> #[trigger] t.windows[i]
                        == s.windows[i]
            }
        }),
{
}

/// Focusing a Pane beside the focused one gives it the focus, drops the zoom and
/// remembers which Pane had the focus; going back to that one returns it.
pub proof fn lemma_focus_goes_there_and_back(s: WorkspaceState, dir: FocusDir, inputs: CommandInputs)
    requires
        s.wf(),
        inputs.neighbor matches Some(pane) ==> s.tab().shows(pane),
    ensures
        ({
            let t = s.commanded(Command::Focus(dir), inputs);
            let back = t.commanded(Command::LastPane, inputs);
            &&& inputs.neighbor is None ==> t == s
            &&& inputs.neighbor matches Some(pane) ==> {
                &&& t.tab().active == pane
                &&& t.tab().zoomed is None
                &&& t.tab().layout == s.tab().layout
                &&& t.last_active_pane == Some(s.tab().active)
                &&& t.active_window == s.active_window
                &&& back.tab().active == s.tab().active
                &&& back.last_active_pane == Some(pane)
                &&& forall|i: int|
                    0 <= i < s.windows.len() && i != s.active_window ==> #[trigger] t.windows[i]
                        == s.windows[i]
            }
        }),
{
    assert(s.windows[s.active_window].wf());
}

/// The Pane that had the focus before gets it back only where the active Tab
/// shows it.
pub proof fn lemma_last_pane_only_in_its_tab(s: WorkspaceState, inputs: CommandInputs)
    requires
        s.wf(),
    ensures
        ({
            let t = s.commanded(Command::LastPane, inputs);
            let there = s.last_active_pane is Some && s.tab().layout.panes().contains(
                s.last_active_pane->0,
            );
            &&& there ==> t.tab().active == s.last_active_pane->0
            &&& !there ==> t == s
            &&& s.moves(Command::LastPane, inputs) <==> there
        }),
{
}

/// A new Tab comes last and is shown, with its one Pane alone and focused, in the
/// Project that was active; the others stay as they are.
pub proof fn lemma_new_tab_comes_last(s: WorkspaceState, inputs: CommandInputs)
    requires
        s.wf(),
    ensures
        ({
            let t = s.commanded(Command::NewWindow, inputs);
            &&& inputs.spawned is None ==> t == s
            &&& inputs.spawned matches Some(pane) ==> {
                &&& t.windows.len() == s.windows.len() + 1
                &&& t.active_window == s.windows.len()
                &&& t.tab().layout == LayoutNode::Leaf(pane)
                &&& t.tab().active == pane
                &&& t.tab().zoomed is None
                &&& t.tab().name is None
                &&& t.tab().project == s.active_project
                &&& t.active_project == s.active_project
                &&& t.projects == s.projects
                &&& forall|i: int|
                    0 <= i < s.windows.len() ==> #[trigger] t.windows[i] == s.windows[i]
            }
        }),
{
}

/// Zooming shows the focused Pane alone, on all of the room; zooming again shows
/// every Pane where it was.
pub proof fn lemma_zoomed_pane_has_all_the_room(
    s: WorkspaceState,
    inputs: CommandInputs,
    area: crate::types::Rect,
)
    requires
        s.wf(),
    ensures
        ({
            let t = s.commanded(Command::ZoomToggle, inputs);
            let shown = crate::canvas::tab_rects(t.tab(), area);
            &&& t.tab().layout == s.tab().layout
            &&& t.tab().active == s.tab().active
            &&& s.tab().zoomed is None ==> {
                &&& t.tab().zoomed == Some(s.tab().active)
                &&& shown.len() == 1
                &&& shown[0].pane == s.tab().active
                &&& shown[0].rect == area
            }
            &&& s.tab().zoomed is Some ==> t.tab().zoomed is None && shown
                == crate::layout::rects(s.tab().layout, area)
        }),
{
}

/// Stepping along the Tab bar shows the Tab that comes next, or before, in the
/// bar, and goes round at its ends.
pub proof fn lemma_step_along_the_tab_bar(s: WorkspaceState, inputs: CommandInputs, at: int)
    requires
        s.wf(),
        s.windows.len() <= usize::MAX,
        0 <= at < tabs_of(s.windows, s.active_project).len(),
        tabs_of(s.windows, s.active_project)[at] == s.active_window,
    ensures
        ({
            let tabs = tabs_of(s.windows, s.active_project);
            let next = s.commanded(Command::NextWindow, inputs);
            let prev = s.commanded(Command::PrevWindow, inputs);
            let n = tabs.len() as int;
            &&& next.active_window == tabs[(at + 1) % n]
            &&& prev.active_window == tabs[(at + n - 1) % n]
            &&& next.active_project == s.active_project
            &&& prev.active_project == s.active_project
            &&& next.windows == s.windows
            &&& prev.windows == s.windows
            &&& s.moves(Command::NextWindow, inputs) <==> n > 1
            &&& s.moves(Command::PrevWindow, inputs) <==> n > 1
        }),
{
    lemma_active_position(s);
    lemma_tabs_among(s.windows, s.active_project, s.windows.len());
    let tabs = tabs_of(s.windows, s.active_project);
    let n = tabs.len() as int;
    assert(place_in(tabs, s.active_window, at));
    assert(s.active_position() == at);
    lemma_cycled(s, true);
    lemma_cycled(s, false);
    assert(0 <= at < n);
    if at + 1 == n {
        assert((at + 1) % n == 0) by (nonlinear_arith)
            requires
                at + 1 == n,
                n > 0,
        ;
    } else {
        vstd::arithmetic::div_mod::lemma_small_mod((at + 1) as nat, n as nat);
    }
    if at == 0 {
        vstd::arithmetic::div_mod::lemma_small_mod((n - 1) as nat, n as nat);
    } else {
        vstd::arithmetic::div_mod::lemma_mod_add_multiples_vanish(at - 1, n);
        vstd::arithmetic::div_mod::lemma_small_mod((at - 1) as nat, n as nat);
        assert(at + n - 1 == n + (at - 1));
    }
}

/// A Tab is selected by its place in the Tab bar; a place that is not there
/// selects nothing.
pub proof fn lemma_tab_selected_by_its_place(s: WorkspaceState, n: u32, inputs: CommandInputs)
    requires
        s.wf(),
        s.windows.len() <= usize::MAX,
    ensures
        ({
            let tabs = tabs_of(s.windows, s.active_project);
            let t = s.commanded(Command::SelectWindow(n), inputs);
            &&& n < tabs.len() ==> t.active_window == tabs[n as int]
            &&& n >= tabs.len() ==> t == s
            &&& t.windows == s.windows
            &&& t.active_project == s.active_project
        }),
{
    lemma_tabs_among(s.windows, s.active_project, s.windows.len());
    let tabs = tabs_of(s.windows, s.active_project);
    if n < tabs.len() {
        assert(0 <= tabs[n as int] < s.windows.len());
        assert(s.windows[tabs[n as int] as int].project == s.active_project);
    }
}

/// The command to close a Pane closes the focused one and no other: its Tab
/// shows the rest in their order, and is gone where there is no rest.
pub proof fn lemma_focused_pane_is_closed(s: WorkspaceState, inputs: CommandInputs)
    requires
        s.wf(),
        s.windows.len() <= usize::MAX,
    ensures
        ({
            let t = s.commanded(Command::KillPane, inputs);
            let gone = s.tab().active;
            &&& crate::hierarchy::unshown(t.windows, gone)
            &&& forall|q: PaneId|
                q != gone ==> #[trigger] crate::hierarchy::unshown(t.windows, q)
                    == crate::hierarchy::unshown(s.windows, q)
            &&& s.tab().layout.panes().len() > 1 ==> {
                &&& t.windows.len() == s.windows.len()
                &&& t.active_window == s.active_window
                &&& t.tab().layout.panes() == s.tab().layout.panes().filter(
                    |q: PaneId| q != gone,
                )
                &&& t.tab().layout.panes().contains(t.tab().active)
                &&& t.tab().zoomed != Some(gone)
            }
            &&& s.tab().layout.panes().len() == 1 ==> t.windows == s.windows.remove(
                s.active_window,
            )
        }),
{
    let gone = s.tab().active;
    assert(s.windows[s.active_window].wf());
    crate::tabs::lemma_close_tabs(s, gone);
    crate::tabs::lemma_window_of_found(s.windows, gone);
    assert(s.windows[s.active_window].shows(gone));
    let w = crate::hierarchy::window_of(s.windows, gone)->0;
    assert(s.windows[w].shows(gone));
    assert(w == s.active_window);
    crate::layout::lemma_minus(s.tab().layout, gone);
    crate::layout::lemma_minus_order(s.tab().layout, gone);
    let panes = s.tab().layout.panes();
    if panes.len() > 1 {
        let k = if panes[0] == gone {
            1int
        } else {
            0int
        };
        assert(panes[k] != gone) by {
            assert(panes[0] != panes[1]);
        }
        assert(panes.contains(panes[k]));
        let rest = s.tab().layout.minus(gone)->0;
        assert((|q: PaneId| q != gone) =~= crate::layout::other_than(gone));
        crate::layout::lemma_panes_nonempty(rest);
        assert(rest.panes().contains(rest.panes()[0]));
        assert(rest.panes().contains(s.tab().reduced(gone, rest).active));
    } else {
        assert(panes[0] == gone);
    }
}

/// A switch in the view turns its own part of it and no other; the same switch
/// again turns it back. A sidebar that is closed loses the focus of the tree in
/// it, and every command closes the menu.
pub proof fn lemma_view_switches(view: ViewState)
    ensures
        ({
            let side = view.commanded(Command::SidebarToggle);
            let files = view.commanded(Command::FileSidebarToggle);
            let watch = view.commanded(Command::Observatory);
            &&& side.sidebar == !view.sidebar
            &&& side.file_sidebar == view.file_sidebar
            &&& side.observatory_tab == view.observatory_tab
            &&& side.commanded(Command::SidebarToggle).sidebar == view.sidebar
            &&& watch.file_sidebar == !view.file_sidebar
            &&& watch.sidebar == view.sidebar
            &&& watch.observatory_tab == view.observatory_tab
            &&& watch.commanded(Command::Observatory).file_sidebar == view.file_sidebar
            &&& files.sidebar == view.sidebar
            &&& files.file_sidebar <==> !(view.file_sidebar && view.observatory_tab is Files)
            &&& files.file_sidebar ==> files.observatory_tab is Files && view.file_tree(
                Command::FileSidebarToggle,
            ) == (FileTreeChange::Sync { focus: true })
            &&& !files.file_sidebar ==> !files.files_focused && view.file_tree(
                Command::FileSidebarToggle,
            ) is Stop
            &&& !watch.file_sidebar ==> !watch.files_focused && view.file_tree(
                Command::Observatory,
            ) is Stop
            &&& forall|cmd: Command| !(#[trigger] view.commanded(cmd)).context_menu
        }),
{
}

} // verus!
