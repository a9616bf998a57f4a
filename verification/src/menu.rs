//! Menus that a right click opens: over a Pane, a file, or an agent.
use crate::commands::{Command, ObservatoryTab, SplitAxis, ViewState};
use crate::hierarchy::{Workspace, WorkspaceState};
use crate::mouse::MouseKind;
use crate::observatory::same_agent;
use crate::pointer::{pane_hit, PointerView};
use crate::tabs::ClosedPane;
use crate::types::{PaneId, Rect};
use vstd::prelude::*;

verus! {

/// What a menu is about.
#[derive(Debug)]
pub enum ContextTarget {
    Pane(PaneId),
    File { path: String, name: String, is_dir: bool },
    FileRoot { root: String },
    /// A file that is to be deleted, once that is confirmed.
    Doomed { path: String, is_dir: bool },
}

#[derive(Clone, Copy, Debug, PartialEq, Eq, Structural)]
pub enum ContextAction {
    SplitRight,
    SplitDown,
    Zoom,
    Overview,
    CopyMode,
    NewTab,
    MoveToTab(usize),
    MoveToNewTab,
    ClosePane,
    Cancel,
    Open,
    CopyPath,
    CopyRelativePath,
    NewFile,
    NewFolder,
    Rename,
    Delete,
    ConfirmFileDelete,
    Refresh,
    ToggleHidden,
}

/// What an entry of a menu asks for.
#[derive(Debug)]
pub enum MenuStep {
    Repaint,
    Run(Command),
    /// A Pane went to another Tab: lay out, paint and save.
    Moved,
    Closed(ClosedPane),
    /// The entry is for the file tree.
    Files(FileStep),
}

/// What an entry of a file's menu asks for.
#[derive(Debug)]
pub enum FileStep {
    /// The target has no files, so that there is only to repaint.
    NotFiles,
    Redraw,
    Open { path: String, is_dir: bool },
    Copy(String),
    CopyRelative(String),
    Create { path: String, is_dir: bool, folder: bool },
    /// Rename it, starting from its present name where that is known.
    Rename { path: String, name: Option<String> },
    /// Ask whether to delete it.
    AskDelete { path: String, is_dir: bool },
    Delete(String),
    Refresh(String),
    ToggleHidden,
}

/// The command that an entry of a Pane's menu stands for, once the Pane has the
/// focus.
pub open spec fn menu_command(action: ContextAction) -> Option<Command> {
    match action {
        ContextAction::SplitRight => Some(Command::Split(SplitAxis::LeftRight)),
        ContextAction::SplitDown => Some(Command::Split(SplitAxis::TopBottom)),
        ContextAction::Zoom => Some(Command::ZoomToggle),
        ContextAction::Overview => Some(Command::Overview),
        ContextAction::CopyMode => Some(Command::CopyMode),
        _ => None,
    }
}

fn command_of(action: ContextAction) -> (cmd: Option<Command>)
    ensures
        cmd == menu_command(action),
{
    match action {
        ContextAction::SplitRight => Some(Command::Split(SplitAxis::LeftRight)),
        ContextAction::SplitDown => Some(Command::Split(SplitAxis::TopBottom)),
        ContextAction::Zoom => Some(Command::ZoomToggle),
        ContextAction::Overview => Some(Command::Overview),
        ContextAction::CopyMode => Some(Command::CopyMode),
        _ => None,
    }
}

/// The entry is for files.
pub open spec fn for_files(action: ContextAction) -> bool {
    match action {
        ContextAction::Open
        | ContextAction::CopyPath
        | ContextAction::CopyRelativePath
        | ContextAction::NewFile
        | ContextAction::NewFolder
        | ContextAction::Rename
        | ContextAction::Delete
        | ContextAction::ConfirmFileDelete
        | ContextAction::Refresh
        | ContextAction::ToggleHidden => true,
        _ => false,
    }
}

/// What an entry asks of a file. The root can be neither opened, renamed nor
/// deleted; hidden files are switched only there. `parent` is the directory
/// that holds a file.
pub open spec fn file_step(
    path: String,
    name: Option<String>,
    is_dir: bool,
    is_root: bool,
    action: ContextAction,
    parent: String,
) -> FileStep {
    match action {
        ContextAction::Open => if is_root {
            FileStep::Redraw
        } else {
            FileStep::Open { path, is_dir }
        },
        ContextAction::CopyPath => FileStep::Copy(path),
        ContextAction::CopyRelativePath => FileStep::CopyRelative(path),
        ContextAction::NewFile => FileStep::Create { path, is_dir, folder: false },
        ContextAction::NewFolder => FileStep::Create { path, is_dir, folder: true },
        ContextAction::Rename => if is_root {
            FileStep::Redraw
        } else {
            FileStep::Rename { path, name }
        },
        ContextAction::Delete => if is_root {
            FileStep::Redraw
        } else {
            FileStep::AskDelete { path, is_dir }
        },
        ContextAction::ConfirmFileDelete => FileStep::Delete(path),
        ContextAction::Refresh => FileStep::Refresh(
            if is_dir {
                path
            } else {
                parent
            },
        ),
        ContextAction::ToggleHidden => if is_root {
            FileStep::ToggleHidden
        } else {
            FileStep::Redraw
        },
        _ => FileStep::Redraw,
    }
}

/// What an entry asks of a target.
pub open spec fn target_step(target: ContextTarget, action: ContextAction, parent: String) -> FileStep {
    match target {
        ContextTarget::File { path, name, is_dir } => file_step(
            path,
            Some(name),
            is_dir,
            false,
            action,
            parent,
        ),
        ContextTarget::FileRoot { root } => file_step(root, None, true, true, action, parent),
        ContextTarget::Doomed { path, is_dir } => file_step(
            path,
            None,
            is_dir,
            false,
            action,
            parent,
        ),
        ContextTarget::Pane(_) => FileStep::NotFiles,
    }
}

fn step_for_file(
    path: String,
    name: Option<String>,
    is_dir: bool,
    is_root: bool,
    action: ContextAction,
    parent: String,
) -> (step: FileStep)
    ensures
        step == file_step(path, name, is_dir, is_root, action, parent),
{
    match action {
        ContextAction::Open => {
            if is_root {
                FileStep::Redraw
            } else {
                FileStep::Open { path, is_dir }
            }
        },
        ContextAction::CopyPath => FileStep::Copy(path),
        ContextAction::CopyRelativePath => FileStep::CopyRelative(path),
        ContextAction::NewFile => FileStep::Create { path, is_dir, folder: false },
        ContextAction::NewFolder => FileStep::Create { path, is_dir, folder: true },
        ContextAction::Rename => {
            if is_root {
                FileStep::Redraw
            } else {
                FileStep::Rename { path, name }
            }
        },
        ContextAction::Delete => {
            if is_root {
                FileStep::Redraw
            } else {
                FileStep::AskDelete { path, is_dir }
            }
        },
        ContextAction::ConfirmFileDelete => FileStep::Delete(path),
        ContextAction::Refresh => {
            if is_dir {
                FileStep::Refresh(path)
            } else {
                FileStep::Refresh(parent)
            }
        },
        ContextAction::ToggleHidden => {
            if is_root {
                FileStep::ToggleHidden
            } else {
                FileStep::Redraw
            }
        },
        _ => FileStep::Redraw,
    }
}

/// Carry out an entry of a file's menu.
pub fn run_file_context_action(target: ContextTarget, action: ContextAction, parent: String) -> (step:
    FileStep)
    ensures
        step == target_step(target, action, parent),
{
    match target {
        ContextTarget::File { path, name, is_dir } => {
            step_for_file(path, Some(name), is_dir, false, action, parent)
        },
        ContextTarget::FileRoot { root } => step_for_file(root, None, true, true, action, parent),
        ContextTarget::Doomed { path, is_dir } => {
            step_for_file(path, None, is_dir, false, action, parent)
        },
        ContextTarget::Pane(_) => FileStep::NotFiles,
    }
}

/// The Pane that a menu is about.
pub open spec fn menu_pane(target: ContextTarget) -> Option<PaneId> {
    match target {
        ContextTarget::Pane(pane) => Some(pane),
        _ => None,
    }
}

/// What an entry of a menu did.
pub open spec fn menu_done(
    a: WorkspaceState,
    b: WorkspaceState,
    target: ContextTarget,
    action: ContextAction,
    area: Rect,
    parent: String,
    step: MenuStep,
) -> bool {
    if for_files(action) {
        b == a && step == MenuStep::Files(target_step(target, action, parent))
    } else if action == ContextAction::Cancel {
        b == a && step is Repaint
    } else if action == ContextAction::NewTab {
        b == a && step == MenuStep::Run(Command::NewWindow)
    } else {
        match menu_pane(target) {
            None => b == a && step is Repaint,
            Some(pane) => match action {
                ContextAction::MoveToTab(to) => if a.can_move(pane, to as int) {
                    b == a.move_into(pane, to as int, area) && step is Moved
                } else {
                    b == a && step is Repaint
                },
                ContextAction::MoveToNewTab => if a.can_move_out(pane) {
                    b == a.move_out(pane) && step is Moved
                } else {
                    b == a && step is Repaint
                },
                ContextAction::ClosePane => {
                    &&& b == a.close(pane)
                    &&& step == MenuStep::Closed(a.closing(pane))
                },
                _ => {
                    &&& b == a.focus_here(pane)
                    &&& if a.tab().shows(pane) {
                        step == MenuStep::Run(menu_command(action).unwrap())
                    } else {
                        step is Repaint
                    }
                },
            },
        }
    }
}

impl Workspace {
    /// Carry out an entry of a menu. An entry about a Pane first gives it the
    /// focus, and does nothing more where the active Tab does not show it.
    pub fn run_context_action(
        &mut self,
        target: ContextTarget,
        action: ContextAction,
        area: Rect,
        parent: String,
    ) -> (step: MenuStep)
        requires
            old(self)@.wf(),
            area.fits(),
        ensures
            menu_done(old(self)@, final(self)@, target, action, area, parent, step),
            final(self)@.windows.len() > 0 ==> final(self)@.wf(),
    {
        match action {
            ContextAction::Open
            | ContextAction::CopyPath
            | ContextAction::CopyRelativePath
            | ContextAction::NewFile
            | ContextAction::NewFolder
            | ContextAction::Rename
            | ContextAction::Delete
            | ContextAction::ConfirmFileDelete
            | ContextAction::Refresh
            | ContextAction::ToggleHidden => {
                return MenuStep::Files(run_file_context_action(target, action, parent));
            },
            ContextAction::Cancel => {
                return MenuStep::Repaint;
            },
            ContextAction::NewTab => {
                return MenuStep::Run(Command::NewWindow);
            },
            _ => {},
        }
        let pane = match target {
            ContextTarget::Pane(pane) => pane,
            _ => {
                return MenuStep::Repaint;
            },
        };
        match action {
            ContextAction::MoveToTab(to) => {
                if self.move_pane_to_window(area, pane, to) {
                    MenuStep::Moved
                } else {
                    MenuStep::Repaint
                }
            },
            ContextAction::MoveToNewTab => {
                if self.move_pane_to_new_window(pane) {
                    MenuStep::Moved
                } else {
                    MenuStep::Repaint
                }
            },
            ContextAction::ClosePane => MenuStep::Closed(self.close_pane(pane)),
            _ => {
                let found = self.focus_context_pane(pane);
                match command_of(action) {
                    Some(cmd) => {
                        if found {
                            MenuStep::Run(cmd)
                        } else {
                            MenuStep::Repaint
                        }
                    },
                    None => MenuStep::Repaint,
                }
            },
        }
    }
}

/// What a right click opens a menu on.
#[derive(Clone, Copy, Debug, PartialEq, Eq, Structural)]
pub enum MenuSpot {
    /// The file in this row of the tree.
    FileSlot(usize),
    FileRoot,
    Pane(PaneId),
    Nothing,
}

impl PointerView {
    /// What a right click at a cell opens a menu on: the file tree where it is
    /// shown, else the Pane there.
    pub open spec fn menu_spot(self, cx: u16, cy: u16) -> MenuSpot {
        let right = self.canvas.right();
        if self.observatory_tab == ObservatoryTab::Files && right > 0 && cx >= crate::canvas::less(
            self.canvas.cols as int,
            right,
        ) {
            match self.file_rows.slot(cy) {
                Some(slot) => MenuSpot::FileSlot(slot as usize),
                None => MenuSpot::FileRoot,
            }
        } else {
            match pane_hit(self.panes@, cx as int, cy as int, 0) {
                Some(pane) => MenuSpot::Pane(pane),
                None => MenuSpot::Nothing,
            }
        }
    }

    /// What a right click at a cell opens a menu on.
    pub fn open_context_menu(&self, cx: u16, cy: u16) -> (spot: MenuSpot)
        ensures
            spot == self.menu_spot(cx, cy),
    {
        let right: u16 = self.canvas.observatory_width();
        if self.observatory_tab == ObservatoryTab::Files && right > 0 && cx
            >= self.canvas.cols.saturating_sub(right) {
            match self.file_rows.slot_at(cy) {
                Some(slot) => MenuSpot::FileSlot(slot),
                None => MenuSpot::FileRoot,
            }
        } else {
            match crate::pointer::find_pane(&self.panes, cx, cy) {
                Some(pane) => MenuSpot::Pane(pane),
                None => MenuSpot::Nothing,
            }
        }
    }
}

impl ViewState {
    /// The view once a right click opened a menu here.
    pub open spec fn with_menu(self, spot: MenuSpot) -> ViewState {
        ViewState {
            context_menu: spot != MenuSpot::Nothing,
            files_focused: match spot {
                MenuSpot::FileSlot(_) | MenuSpot::FileRoot => true,
                MenuSpot::Pane(_) => false,
                MenuSpot::Nothing => self.files_focused,
            },
            ..self
        }
    }

    /// Open a menu, or close the one that is open where there is nothing to open
    /// one on. A menu on the files gives them the focus, and one on a Pane takes
    /// it from them.
    pub fn show_menu(&mut self, spot: MenuSpot)
        ensures
            *final(self) == old(self).with_menu(spot),
    {
        match spot {
            MenuSpot::FileSlot(_) | MenuSpot::FileRoot => {
                self.files_focused = true;
            },
            MenuSpot::Pane(_) => {
                self.files_focused = false;
            },
            MenuSpot::Nothing => {},
        }
        self.context_menu = spot != MenuSpot::Nothing;
    }
}

/// What keys typed at an open menu come to.
#[derive(Clone, Copy, Debug, PartialEq, Eq, Structural)]
pub enum ContextInput {
    Nothing,
    /// Another entry is marked.
    Redraw,
    Close,
    /// This entry was chosen.
    Run(ContextAction),
}

/// What is left to do once keys were typed at a menu.
#[derive(Clone, Copy, Debug, PartialEq, Eq, Structural)]
pub enum MenuKeys {
    Nothing,
    Repaint,
    Run(ContextAction),
}

impl ViewState {
    /// Keys were typed at the open menu. The menu closes where they say so, and
    /// before an entry is carried out. Without an open menu nothing happens.
    pub fn handle_context_input(&mut self, input: ContextInput) -> (keys: MenuKeys)
        ensures
            keys == if !old(self).context_menu {
                MenuKeys::Nothing
            } else {
                match input {
                    ContextInput::Nothing => MenuKeys::Nothing,
                    ContextInput::Redraw | ContextInput::Close => MenuKeys::Repaint,
                    ContextInput::Run(action) => MenuKeys::Run(action),
                }
            },
            *final(self) == (ViewState {
                context_menu: old(self).context_menu && (input is Nothing || input is Redraw),
                ..*old(self)
            }),
    {
        if !self.context_menu {
            return MenuKeys::Nothing;
        }
        match input {
            ContextInput::Nothing => MenuKeys::Nothing,
            ContextInput::Redraw => MenuKeys::Repaint,
            ContextInput::Close => {
                self.context_menu = false;
                MenuKeys::Repaint
            },
            ContextInput::Run(action) => {
                self.context_menu = false;
                MenuKeys::Run(action)
            },
        }
    }
}

/// What a mouse event over an open menu does.
#[derive(Clone, Copy, Debug, PartialEq, Eq, Structural)]
pub enum MenuMouse {
    /// Mark the entry under the pointer.
    Mark,
    /// Close the menu, and carry out the entry under the pointer.
    Choose,
    /// Move the mark as the letter does.
    Type(u8),
    Nothing,
}

/// What a mouse event over an open menu does.
pub open spec fn menu_event(kind: MouseKind) -> MenuMouse {
    match kind {
        MouseKind::Hover => MenuMouse::Mark,
        MouseKind::Click | MouseKind::Release => MenuMouse::Choose,
        MouseKind::WheelUp => MenuMouse::Type(107),
        MouseKind::WheelDown => MenuMouse::Type(106),
        MouseKind::RightClick | MouseKind::Drag => MenuMouse::Nothing,
    }
}

/// What a mouse event over an open menu does.
pub fn handle_context_mouse(kind: MouseKind) -> (step: MenuMouse)
    ensures
        step == menu_event(kind),
{
    match kind {
        MouseKind::Hover => MenuMouse::Mark,
        MouseKind::Click | MouseKind::Release => MenuMouse::Choose,
        MouseKind::WheelUp => MenuMouse::Type(107),
        MouseKind::WheelDown => MenuMouse::Type(106),
        MouseKind::RightClick | MouseKind::Drag => MenuMouse::Nothing,
    }
}

#[derive(Clone, Copy, Debug, PartialEq, Eq, Structural)]
pub enum AgentAction {
    Focus,
    CopyPath,
    Stop,
}

/// The agent that a menu was opened on.
#[derive(Clone, Copy, Debug, PartialEq, Eq, Structural)]
pub struct AgentTarget {
    pub pane: PaneId,
    pub started_at: u64,
    pub foreground_pid: Option<i32>,
}

/// What an entry of an agent's menu asks for.
#[derive(Debug)]
pub enum AgentStep {
    Nothing,
    /// Show the agent, and let the Tab bar follow.
    Focus(PaneId),
    Copy(String),
    Stop(PaneId),
}

/// Carry out an entry of an agent's menu. Where another agent has taken the
/// Pane since, nothing happens. `present` are the start and the process of the
/// agent that is there now.
pub fn run_agent_context_action(
    target: AgentTarget,
    action: AgentAction,
    present: Option<(u64, Option<i32>)>,
    cwd: Option<String>,
) -> (step: AgentStep)
    ensures
        ({
            let same = present matches Some((started, pid)) && started == target.started_at && pid
                == target.foreground_pid;
            step == if !same {
                AgentStep::Nothing
            } else {
                match action {
                    AgentAction::Focus => AgentStep::Focus(target.pane),
                    AgentAction::CopyPath => match cwd {
                        Some(path) => AgentStep::Copy(path),
                        None => AgentStep::Nothing,
                    },
                    AgentAction::Stop => AgentStep::Stop(target.pane),
                }
            }
        }),
{
    let same = match present {
        Some((started, pid)) => same_agent(
            target.started_at,
            target.foreground_pid,
            started,
            pid,
        ),
        None => false,
    };
    if !same {
        return AgentStep::Nothing;
    }
    match action {
        AgentAction::Focus => AgentStep::Focus(target.pane),
        AgentAction::CopyPath => match cwd {
            Some(path) => AgentStep::Copy(path),
            None => AgentStep::Nothing,
        },
        AgentAction::Stop => AgentStep::Stop(target.pane),
    }
}

/// What selecting a tab of the right sidebar asks for.
#[derive(Clone, Copy, Debug, PartialEq, Eq, Structural)]
pub struct TabSwitch {
    /// Stop watching files.
    pub stop_files: bool,
    /// Watch for web servers, or stop.
    pub watch_servers: bool,
    /// Show the active Project's files.
    pub sync_files: bool,
}

impl ViewState {
    /// The view once a tab of the right sidebar was selected. Leaving the files
    /// takes the focus from them.
    pub open spec fn with_tab(self, tab: ObservatoryTab) -> ViewState {
        if tab == self.observatory_tab {
            self
        } else {
            ViewState {
                observatory_tab: tab,
                files_focused: self.observatory_tab != ObservatoryTab::Files
                    && self.files_focused,
                ..self
            }
        }
    }

    /// What selecting a tab of the right sidebar asks for; `None` where it is
    /// selected already.
    pub open spec fn tab_switch(self, tab: ObservatoryTab) -> Option<TabSwitch> {
        if tab == self.observatory_tab {
            None
        } else {
            Some(
                TabSwitch {
                    stop_files: self.observatory_tab == ObservatoryTab::Files,
                    watch_servers: tab == ObservatoryTab::WebServers,
                    sync_files: tab == ObservatoryTab::Files,
                },
            )
        }
    }

    /// Select a tab of the right sidebar; `None` where it is selected already.
    pub fn select_observatory_tab(&mut self, tab: ObservatoryTab) -> (switch: Option<TabSwitch>)
        ensures
            *final(self) == old(self).with_tab(tab),
            switch == old(self).tab_switch(tab),
    {
        if tab == self.observatory_tab {
            return None;
        }
        let left = self.observatory_tab == ObservatoryTab::Files;
        if left {
            self.files_focused = false;
        }
        self.observatory_tab = tab;
        Some(
            TabSwitch {
                stop_files: left,
                watch_servers: tab == ObservatoryTab::WebServers,
                sync_files: tab == ObservatoryTab::Files,
            },
        )
    }
}

} // verus!
