//! A running session: what each message of a client does to it.
use crate::canvas::Canvas;
use crate::clients::{
    any_watching, attached_list, client_at, contested, direct_list, file_runtime,
    reconcile_file_manager_runtime, resized_list, revoked_tokens, set_apart, ClientInfo, Clients,
    DirectOutcome, FileRuntime, PaneAttachRole, RepaintTarget,
};
use crate::commands::{Command, ObservatoryTab, ViewState};
use crate::control::{project_renamed, tab_renamed};
use crate::hierarchy::{window_of, Workspace};
use crate::messages::{ClientMessage, Query};
use crate::mouse::MouseKind;
use crate::orchestration::{ArtifactClaim, OrchestrationKind, SubmissionStatus};
use crate::overview::OverviewChange;
use crate::projects::RemovedProject;
use crate::search_path::{
    acceptable, firsts, merge_search_paths, normalize_remote_search_path, texts, widened,
};
use crate::tabs::ClosedPane;
use crate::text::{clip, clipped, trim, trimmed};
use crate::types::{PaneId, ProjectId, Token};
use crate::waits::{PendingControlWait, MAX_NEEDLE_CHARS, MAX_WAIT_MS};
use vstd::prelude::*;

verus! {

/// The hierarchy, the view and the clients of a session.
#[derive(Debug)]
pub struct Session {
    pub workspace: Workspace,
    pub view: ViewState,
    pub clients: Clients,
    /// Where agents are looked for.
    pub search_path: Vec<String>,
    /// The widths of the sidebars and the place of the status line.
    pub frame: Canvas,
}

/// What a message finds outside the session.
#[derive(Debug)]
pub struct MsgFacts {
    /// The Pane named exists, and runs an agent.
    pub pane_exists: bool,
    pub has_agent: bool,
    /// The focused Pane is in copy mode.
    pub copying: bool,
    pub panes: usize,
    /// Tiles to a row of the overview.
    pub overview_cols: usize,
    /// The rules on destructive commands let this one pass.
    pub permitted: bool,
    /// The Project named is a worktree.
    pub worktree: bool,
    pub now: u64,
    pub all_panes: Vec<PaneId>,
    pub agent_panes: Vec<PaneId>,
}

/// How a new task is started.
#[derive(Clone, Copy, Debug, PartialEq, Eq, Structural)]
pub enum TaskRoute {
    Workflow,
    Relay,
    /// Providers were chosen for roles that nothing has.
    Refused,
    Plain,
}

/// What is left to do about a message.
#[derive(Debug)]
pub enum MsgStep {
    Ignored,
    /// A client's size counts: paint everything, or this client; and file work.
    Sized { everything: bool, files: FileRuntime },
    RepaintClient(RepaintTarget),
    SendInput { pane: PaneId, bytes: Vec<u8> },
    MenuInput(Vec<u8>),
    FileInput(Vec<u8>),
    CopyInput(Vec<u8>),
    Overview(OverviewChange),
    PaneAttached { outcome: DirectOutcome, everything: bool },
    RunCommand(Command),
    Point { x: u16, y: u16, event: MouseKind },
    Overlay { everything: bool, client: bool },
    Detached,
    Stop,
    Info { windows: u32, panes: u32 },
    Answer(Query),
    RenameSession(String),
    CreateProject { name: String, root: String },
    /// Answer with the Workspace.
    WorkspaceReply { changed: bool },
    RemovalUnconfirmed,
    RemoveWorktree(ProjectId),
    ProjectRemoved(Option<RemovedProject>),
    PaneFocused { found: bool },
    HierarchyFocused(Option<PaneId>),
    TabMoved { moved: bool },
    TabRenamed,
    AgentFocused,
    PaneClosed(ClosedPane),
    StopUnconfirmed,
    StopAgents(Vec<PaneId>),
    Wait(PendingControlWait),
    Launch {
        route: TaskRoute,
        prompt: String,
        agent: Option<String>,
        role_providers: Vec<String>,
        workflow: Option<String>,
        selector: Option<String>,
    },
    Submit {
        kind: OrchestrationKind,
        token: u64,
        status: SubmissionStatus,
        verdict: Option<String>,
        summary: String,
        artifacts: Vec<ArtifactClaim>,
    },
    RetitleTask { id: u64, title: String },
    /// Answer with the tasks.
    TasksReply,
    SaveTask(String),
    Outside,
}

/// How a new task is started: a workflow by its name, else a relay, else a
/// plain agent, for whom no role can be chosen.
pub open spec fn task_route(workflow: Option<String>, relay: bool, role_providers: int) -> TaskRoute {
    if workflow is Some {
        TaskRoute::Workflow
    } else if relay {
        TaskRoute::Relay
    } else if role_providers > 0 {
        TaskRoute::Refused
    } else {
        TaskRoute::Plain
    }
}

impl Session {
    /// The canvas as it is shown.
    pub open spec fn canvas(self) -> Canvas {
        Canvas {
            cols: self.clients.cols,
            rows: self.clients.rows,
            sidebar: self.view.sidebar,
            file_sidebar: self.view.file_sidebar,
            ..self.frame
        }
    }

    /// The file tree is shown.
    pub open spec fn files_visible(self) -> bool {
        self.view.observatory_tab == ObservatoryTab::Files && self.canvas().right() > 0
    }

    /// The client with this token.
    pub open spec fn client(self, token: Token) -> Option<ClientInfo> {
        match client_at(self.clients.list@, token, 0) {
            Some(i) => Some(self.clients.list@[i]),
            None => None,
        }
    }

    /// The client is held to a single Pane.
    pub open spec fn is_direct(self, token: Token) -> bool {
        self.client(token) matches Some(c) && c.direct_only
    }

    /// The invariant of a running session.
    pub open spec fn wf(self) -> bool {
        self.workspace@.wf() && self.clients.wf()
    }

    /// What a client's repaint shows.
    pub open spec fn repaint(self, token: Token) -> RepaintTarget {
        let list = self.clients.list@;
        let sole = crate::clients::shown_count(list, list.len()) <= 1;
        match self.client(token) {
            Some(c) => match c.direct {
                Some(d) => RepaintTarget::Pane(d.pane),
                None => if c.direct_only {
                    RepaintTarget::Nothing
                } else {
                    RepaintTarget::Workspace { sole }
                },
            },
            None => RepaintTarget::Workspace { sole },
        }
    }
}

/// The messages that a client held to a single Pane may send.
pub open spec fn direct_may_send(msg: ClientMessage) -> bool {
    msg is PaneAttach || msg is Input || msg is Resize || msg is Refresh || msg is FocusGained
        || msg is Detach
}

/// Only the Workspace differs.
pub open spec fn only_workspace(a: Session, b: Session) -> bool {
    b == (Session { workspace: b.workspace, ..a })
}

/// Only the clients differ.
pub open spec fn only_clients(a: Session, b: Session) -> bool {
    b == (Session { clients: b.clients, ..a })
}

/// A client's size came to count: the canvas follows, and file work with it.
pub open spec fn sized(a: Session, b: Session, list: Seq<ClientInfo>, step: MsgStep) -> bool {
    &&& only_clients(a, b)
    &&& b.clients.list@ == list
    &&& (b.clients.cols, b.clients.rows) == a.clients.canvas_for(list)
    &&& step == (MsgStep::Sized {
        everything: (b.clients.cols, b.clients.rows) != (a.clients.cols, a.clients.rows),
        files: file_runtime(
            b.files_visible(),
            any_watching(list),
            a.files_visible(),
            any_watching(a.clients.list@),
        ),
    })
}

/// Where typed bytes go: a client held to a Pane types there or nowhere; an
/// open menu, the focused file tree, the overview and copy mode come before the
/// focused Pane.
pub open spec fn input_done(
    a: Session,
    b: Session,
    token: Token,
    bytes: Vec<u8>,
    facts: MsgFacts,
    step: MsgStep,
) -> bool {
    if a.is_direct(token) {
        &&& b == a
        &&& match a.client(token) {
            Some(c) => match c.direct {
                Some(d) => if d.role.controls() {
                    step == (MsgStep::SendInput { pane: d.pane, bytes })
                } else {
                    step is Ignored
                },
                None => step is Ignored,
            },
            None => step is Ignored,
        }
    } else if a.view.context_menu {
        b == a && step == MsgStep::MenuInput(bytes)
    } else if a.view.files_focused && a.files_visible() {
        b == a && step == MsgStep::FileInput(bytes)
    } else if a.workspace@.overview is Some {
        &&& only_workspace(a, b)
        &&& b.workspace@ == a.workspace@.overview_typed(bytes@, facts.overview_cols as int)
        &&& step == MsgStep::Overview(
            a.workspace@.overview_change(bytes@, facts.overview_cols as int),
        )
    } else if facts.copying {
        b == a && step == MsgStep::CopyInput(bytes)
    } else {
        b == a && step == (MsgStep::SendInput { pane: a.workspace@.tab().active, bytes })
    }
}

/// A client asked for a single Pane.
pub open spec fn pane_attached(
    a: Session,
    b: Session,
    token: Token,
    pane: PaneId,
    role: PaneAttachRole,
    exists_pane: bool,
    step: MsgStep,
) -> bool {
    let apart = set_apart(a.clients.list@, token);
    let was_attached = a.client(token) matches Some(c) && c.attached;
    &&& only_clients(a, b)
    &&& b.clients.list@ == direct_list(a.clients.list@, token, pane, exists_pane, role)
    &&& (b.clients.cols, b.clients.rows) == if was_attached {
        a.clients.canvas_for(b.clients.list@)
    } else {
        (a.clients.cols, a.clients.rows)
    }
    &&& step matches MsgStep::PaneAttached { outcome, everything }
    &&& everything == ((b.clients.cols, b.clients.rows) != (a.clients.cols, a.clients.rows))
    &&& if !exists_pane {
        outcome is Missing
    } else if role == PaneAttachRole::Controller && contested(apart, token, pane) {
        outcome is Contested
    } else {
        &&& outcome matches DirectOutcome::Attached { revoked }
        &&& revoked@ == if role == PaneAttachRole::Takeover {
            revoked_tokens(apart, token, pane, apart.len())
        } else {
            Seq::empty()
        }
    }
}

/// A client covered its canvas, or uncovered it.
pub open spec fn overlaid(a: Session, b: Session, token: Token, on: bool, step: MsgStep) -> bool {
    let list = a.clients.list@;
    &&& b == (Session {
        clients: b.clients,
        view: ViewState {
            context_menu: if on {
                false
            } else {
                a.view.context_menu
            },
            ..a.view
        },
        ..a
    })
    &&& b.clients.list@ == match client_at(list, token, 0) {
        Some(i) => list.update(i, ClientInfo { overlay: on, ..list[i] }),
        None => list,
    }
    &&& b.clients.cols == a.clients.cols
    &&& b.clients.rows == a.clients.rows
    &&& step == (MsgStep::Overlay { everything: on && a.view.context_menu, client: !on })
}

/// The search path of a client that does not show the Workspace was merged in.
pub open spec fn environment_done(
    a: Session,
    b: Session,
    token: Token,
    given: Seq<String>,
    step: MsgStep,
) -> bool {
    let unattached = a.client(token) matches Some(c) && !c.attached;
    &&& step is Ignored
    &&& if unattached && acceptable(texts(given)) {
        &&& b == (Session { search_path: b.search_path, ..a })
        &&& texts(b.search_path@) == widened(firsts(texts(given)), texts(a.search_path@))
    } else {
        b == a
    }
}

/// A destructive request about a Project.
pub open spec fn removal_done(
    a: Session,
    b: Session,
    project: ProjectId,
    facts: MsgFacts,
    step: MsgStep,
) -> bool {
    if !facts.permitted {
        b == a && step is RemovalUnconfirmed
    } else if facts.worktree {
        b == a && step == MsgStep::RemoveWorktree(project)
    } else {
        &&& only_workspace(a, b)
        &&& step matches MsgStep::ProjectRemoved(removed)
        &&& if a.workspace@.removable(project) {
            &&& removed matches Some(r) && r.stopped == (b.workspace@.windows.len() == 0)
                && r.panes@ == crate::projects::project_panes(a.workspace@.windows, project)
            &&& b.workspace@ == a.workspace@.without_project(project)
        } else {
            removed is None && b.workspace@ == a.workspace@
        }
    }
}

/// What a message did.
pub open spec fn msg_done(
    a: Session,
    b: Session,
    token: Token,
    msg: ClientMessage,
    facts: MsgFacts,
    step: MsgStep,
) -> bool {
    match msg {
        ClientMessage::Attach { cols, rows } => sized(
            a,
            b,
            attached_list(a.clients.list@, token, cols, rows),
            step,
        ),
        ClientMessage::Resize { cols, rows } => if a.is_direct(token) {
            b == a && step == MsgStep::RepaintClient(a.repaint(token))
        } else {
            sized(a, b, resized_list(a.clients.list@, token, cols, rows), step)
        },
        ClientMessage::Input(bytes) => input_done(a, b, token, bytes, facts, step),
        ClientMessage::PaneAttach { pane, role } => pane_attached(
            a,
            b,
            token,
            pane,
            role,
            facts.pane_exists,
            step,
        ),
        ClientMessage::Command(cmd) => b == a && step == MsgStep::RunCommand(cmd),
        ClientMessage::Mouse { x, y, event } => b == a && step == (MsgStep::Point { x, y, event }),
        ClientMessage::Refresh | ClientMessage::FocusGained => b == a && step
            == MsgStep::RepaintClient(a.repaint(token)),
        ClientMessage::OverlayVisible { on } => overlaid(a, b, token, on, step),
        ClientMessage::Detach => b == a && step is Detached,
        ClientMessage::KillServer => b == a && step is Stop,
        ClientMessage::Query(query) => b == a && if query == Query::Info {
            step == (MsgStep::Info {
                windows: a.workspace@.windows.len() as u32,
                panes: facts.panes as u32,
            })
        } else {
            step == MsgStep::Answer(query)
        },
        ClientMessage::RenameSession { name } => b == a && step == MsgStep::RenameSession(name),
        ClientMessage::ProjectCreate { name, root } => b == a && step == (MsgStep::CreateProject {
            name,
            root,
        }),
        ClientMessage::ProjectRename { project, name } => {
            &&& only_workspace(a, b)
            &&& project_renamed(a.workspace@, b.workspace@, project, name@)
            &&& step == (MsgStep::WorkspaceReply {
                changed: crate::hierarchy::known(a.workspace@.projects, project) && trimmed(
                    name@,
                ).len() > 0,
            })
        },
        ClientMessage::ProjectMove { project, towards } => {
            &&& only_workspace(a, b)
            &&& b.workspace@ == a.workspace@.move_project(project, towards)
            &&& step == (MsgStep::WorkspaceReply {
                changed: a.workspace@.project_move(project, towards) is Some,
            })
        },
        ClientMessage::ProjectSwitch { project } => {
            &&& only_workspace(a, b)
            &&& b.workspace@ == a.workspace@.switch_to(project)
            &&& step == (MsgStep::WorkspaceReply {
                changed: project != a.workspace@.active_project && crate::hierarchy::has_tab(
                    a.workspace@.windows,
                    project,
                ),
            })
        },
        ClientMessage::ProjectRemove { project } => removal_done(a, b, project, facts, step),
        ClientMessage::PaneFocus { pane } => {
            &&& only_workspace(a, b)
            &&& b.workspace@ == a.workspace@.focus_on(pane)
            &&& step == (MsgStep::PaneFocused {
                found: window_of(a.workspace@.windows, pane) is Some,
            })
        },
        ClientMessage::HierarchyFocus { project, tab, ordinal } => {
            &&& only_workspace(a, b)
            &&& b.workspace@ == a.workspace@.hierarchy_focused(project, tab, ordinal)
            &&& step == MsgStep::HierarchyFocused(
                a.workspace@.ordinal_target(project, tab, ordinal),
            )
        },
        ClientMessage::TabMove { direction } => {
            let moved = a.workspace@.tab_move(direction) is Some;
            &&& only_workspace(a, b)
            &&& b.workspace@ == if moved {
                a.workspace@.move_tab(direction)
            } else {
                a.workspace@
            }
            &&& step == (MsgStep::TabMoved { moved })
        },
        ClientMessage::RenameWindow { name } => {
            &&& only_workspace(a, b)
            &&& tab_renamed(a.workspace@, b.workspace@, name@)
            &&& step is TabRenamed
        },
        ClientMessage::AgentFocus { pane } => {
            &&& only_workspace(a, b)
            &&& b.workspace@ == a.workspace@.focus_on(pane)
            &&& step is AgentFocused
        },
        ClientMessage::AgentStop { pane } => if facts.has_agent {
            &&& only_workspace(a, b)
            &&& b.workspace@ == a.workspace@.close(pane)
            &&& step == MsgStep::PaneClosed(a.workspace@.closing(pane))
        } else {
            b == a && step is Ignored
        },
        ClientMessage::AgentsStopAll { scope } => b == a && if facts.permitted {
            let scoped = a.workspace@.scope_panes(scope, facts.all_panes@);
            step matches MsgStep::StopAgents(panes) && panes@ == crate::listings::among(
                scoped,
                scoped.len(),
                facts.agent_panes@,
            )
        } else {
            step is StopUnconfirmed
        },
        ClientMessage::PaneWaitOutput { pane, needle, timeout_ms } => {
            &&& b == a
            &&& step matches MsgStep::Wait(PendingControlWait::Output { pane: p, needle: n, deadline })
            &&& p == pane
            &&& n@ == clipped(needle@, MAX_NEEDLE_CHARS as nat)
            &&& deadline == facts.now + crate::settings::clamped(
                timeout_ms as int,
                1,
                MAX_WAIT_MS as int,
            )
        },
        ClientMessage::AgentWait { pane, wanted, timeout_ms } => b == a && step == MsgStep::Wait(
            PendingControlWait::Agent {
                pane,
                status: wanted,
                deadline: (facts.now + crate::settings::clamped(
                    timeout_ms as int,
                    1,
                    MAX_WAIT_MS as int,
                )) as u64,
            },
        ),
        ClientMessage::RemoteEnvironment { search_path } => environment_done(
            a,
            b,
            token,
            search_path@,
            step,
        ),
        ClientMessage::NewTask { prompt, relay, agent, role_providers, workflow, selector } => b == a
            && step == (MsgStep::Launch {
            route: task_route(workflow, relay, role_providers@.len() as int),
            prompt,
            agent,
            role_providers,
            workflow,
            selector,
        }),
        ClientMessage::WorkflowSubmit { token: run, failed, verdict, summary } => {
            &&& b == a
            &&& step matches MsgStep::Submit {
                kind,
                token: t,
                status,
                verdict: v,
                summary: s,
                artifacts,
            }
            &&& kind == OrchestrationKind::Workflow && t == run && v == verdict && s == summary
            &&& artifacts@.len() == 0
            &&& status == if failed {
                SubmissionStatus::Failed
            } else {
                SubmissionStatus::Done
            }
        },
        ClientMessage::OrchestrationSubmit { kind, token: run, status, verdict, summary, artifacts } =>
        b == a && step == (MsgStep::Submit {
            kind,
            token: run,
            status,
            verdict,
            summary,
            artifacts,
        }),
        ClientMessage::TaskRetitle { id, title } => b == a && if trimmed(title@).len() > 0 {
            step matches MsgStep::RetitleTask { id: i, title: t } && i == id && t@ == trimmed(
                title@,
            )
        } else {
            step is TasksReply
        },
        ClientMessage::SaveTask { title } => b == a && if trimmed(title@).len() > 0 {
            step matches MsgStep::SaveTask(t) && t@ == trimmed(title@)
        } else {
            step is Ignored
        },
        ClientMessage::Outside => b == a && step is Outside,
    }
}

fn may_send_direct(msg: &ClientMessage) -> (may: bool)
    ensures
        may == direct_may_send(*msg),
{
    match msg {
        ClientMessage::PaneAttach { .. }
        | ClientMessage::Input(_)
        | ClientMessage::Resize { .. }
        | ClientMessage::Refresh
        | ClientMessage::FocusGained
        | ClientMessage::Detach => true,
        _ => false,
    }
}

fn route_task(workflow: &Option<String>, relay: bool, role_providers: usize) -> (route: TaskRoute)
    ensures
        route == task_route(*workflow, relay, role_providers as int),
{
    if workflow.is_some() {
        TaskRoute::Workflow
    } else if relay {
        TaskRoute::Relay
    } else if role_providers > 0 {
        TaskRoute::Refused
    } else {
        TaskRoute::Plain
    }
}

impl Session {
    /// The canvas as it is shown.
    pub fn current_canvas(&self) -> (canvas: Canvas)
        ensures
            canvas == self.canvas(),
    {
        Canvas {
            cols: self.clients.cols,
            rows: self.clients.rows,
            sidebar: self.view.sidebar,
            file_sidebar: self.view.file_sidebar,
            ..self.frame
        }
    }

    /// Whether the file tree is shown.
    pub fn file_manager_visible(&self) -> (visible: bool)
        ensures
            visible == self.files_visible(),
    {
        let canvas = self.current_canvas();
        self.view.observatory_tab == ObservatoryTab::Files && canvas.observatory_width() > 0
    }

    fn find_client(&self, token: Token) -> (found: Option<ClientInfo>)
        ensures
            found == self.client(token),
    {
        match self.clients.position(token) {
            Some(i) => Some(self.clients.list[i]),
            None => None,
        }
    }

    fn on_attach(&mut self, token: Token, cols: u16, rows: u16) -> (step: MsgStep)
        requires
            old(self).wf(),
        ensures
            final(self).wf(),
            sized(
                *old(self),
                *final(self),
                attached_list(old(self).clients.list@, token, cols, rows),
                step,
            ),
    {
        let was_visible = self.file_manager_visible();
        let had_clients = self.clients.any_attached();
        let everything = self.clients.attach(token, cols, rows);
        let files = reconcile_file_manager_runtime(
            self.file_manager_visible(),
            self.clients.any_attached(),
            was_visible,
            had_clients,
        );
        MsgStep::Sized { everything, files }
    }

    fn on_resize(&mut self, token: Token, cols: u16, rows: u16) -> (step: MsgStep)
        requires
            old(self).wf(),
        ensures
            final(self).wf(),
            sized(
                *old(self),
                *final(self),
                resized_list(old(self).clients.list@, token, cols, rows),
                step,
            ),
    {
        let was_visible = self.file_manager_visible();
        let had_clients = self.clients.any_attached();
        let everything = self.clients.resize(token, cols, rows);
        let files = reconcile_file_manager_runtime(
            self.file_manager_visible(),
            self.clients.any_attached(),
            was_visible,
            had_clients,
        );
        MsgStep::Sized { everything, files }
    }

    fn on_input(&mut self, token: Token, bytes: Vec<u8>, facts: &MsgFacts) -> (step: MsgStep)
        requires
            old(self).wf(),
        ensures
            final(self).wf(),
            input_done(*old(self), *final(self), token, bytes, *facts, step),
    {
        if let Some(c) = self.find_client(token) {
            if c.direct_only {
                return match c.direct {
                    Some(d) => {
                        if d.role.can_control() {
                            MsgStep::SendInput { pane: d.pane, bytes }
                        } else {
                            MsgStep::Ignored
                        }
                    },
                    None => MsgStep::Ignored,
                };
            }
        }
        if self.view.context_menu {
            return MsgStep::MenuInput(bytes);
        }
        if self.view.files_focused && self.file_manager_visible() {
            return MsgStep::FileInput(bytes);
        }
        if self.workspace.overview.is_some() {
            let change = self.workspace.handle_overview_input(
                bytes.as_slice(),
                facts.overview_cols,
            );
            return MsgStep::Overview(change);
        }
        if facts.copying {
            return MsgStep::CopyInput(bytes);
        }
        let active = self.workspace.windows[self.workspace.active_window].active;
        MsgStep::SendInput { pane: active, bytes }
    }

    fn on_pane_attach(
        &mut self,
        token: Token,
        pane: PaneId,
        role: PaneAttachRole,
        exists_pane: bool,
    ) -> (step: MsgStep)
        requires
            old(self).wf(),
        ensures
            final(self).wf(),
            pane_attached(*old(self), *final(self), token, pane, role, exists_pane, step),
    {
        let (outcome, everything) = self.clients.attach_direct(token, pane, exists_pane, role);
        MsgStep::PaneAttached { outcome, everything }
    }

    fn on_overlay(&mut self, token: Token, on: bool) -> (step: MsgStep)
        requires
            old(self).wf(),
        ensures
            final(self).wf(),
            overlaid(*old(self), *final(self), token, on, step),
    {
        let open = self.view.context_menu;
        self.clients.set_overlay(token, on);
        if on {
            self.view.context_menu = false;
        }
        MsgStep::Overlay { everything: on && open, client: !on }
    }

    fn on_environment(&mut self, token: Token, given: Vec<String>) -> (step: MsgStep)
        requires
            old(self).wf(),
        ensures
            final(self).wf(),
            environment_done(*old(self), *final(self), token, given@, step),
    {
        let unattached = match self.find_client(token) {
            Some(c) => !c.attached,
            None => false,
        };
        if unattached {
            if let Some(list) = normalize_remote_search_path(given) {
                self.search_path = merge_search_paths(list, self.search_path.as_slice());
            }
        }
        MsgStep::Ignored
    }

    fn on_project_remove(&mut self, project: ProjectId, facts: &MsgFacts) -> (step: MsgStep)
        requires
            old(self).wf(),
        ensures
            removal_done(*old(self), *final(self), project, *facts, step),
            final(self).clients.wf(),
            final(self).workspace@.windows.len() > 0 ==> final(self).wf(),
    {
        if !facts.permitted {
            return MsgStep::RemovalUnconfirmed;
        }
        if facts.worktree {
            return MsgStep::RemoveWorktree(project);
        }
        let removed = self.workspace.remove_project(project);
        MsgStep::ProjectRemoved(removed)
    }

    fn on_tab_move(&mut self, direction: crate::projects::TabMoveDirection) -> (step: MsgStep)
        requires
            old(self).wf(),
        ensures
            final(self).wf(),
            only_workspace(*old(self), *final(self)),
            final(self).workspace@ == if old(self).workspace@.tab_move(direction) is Some {
                old(self).workspace@.move_tab(direction)
            } else {
                old(self).workspace@
            },
            step == (MsgStep::TabMoved {
                moved: old(self).workspace@.tab_move(direction) is Some,
            }),
    {
        assert(self.workspace.windows.len() <= usize::MAX);
        proof {
            crate::projects::lemma_active_position(self.workspace@);
        }
        let moved = self.workspace.move_active_tab(direction).is_some();
        MsgStep::TabMoved { moved }
    }

    fn on_hierarchy_focus(&mut self, project: ProjectId, tab: u32, ordinal: Option<u32>) -> (step:
        MsgStep)
        requires
            old(self).wf(),
        ensures
            final(self).wf(),
            only_workspace(*old(self), *final(self)),
            final(self).workspace@ == old(self).workspace@.hierarchy_focused(project, tab, ordinal),
            step == MsgStep::HierarchyFocused(
                old(self).workspace@.ordinal_target(project, tab, ordinal),
            ),
    {
        let target = match self.workspace.focus_hierarchy_target(project, tab, ordinal) {
            Some(f) => Some(f.pane),
            None => None,
        };
        MsgStep::HierarchyFocused(target)
    }

    fn on_project_rename(&mut self, project: ProjectId, name: String) -> (step: MsgStep)
        requires
            old(self).wf(),
        ensures
            final(self).wf(),
            only_workspace(*old(self), *final(self)),
            project_renamed(old(self).workspace@, final(self).workspace@, project, name@),
            step == (MsgStep::WorkspaceReply {
                changed: crate::hierarchy::known(old(self).workspace@.projects, project)
                    && trimmed(name@).len() > 0,
            }),
    {
        proof {
            let projects = self.workspace@.projects;
            if crate::hierarchy::known(projects, project) {
                crate::hierarchy::lemma_project_at_found(projects, project);
            } else if let Some(i) = crate::hierarchy::project_at(projects, project) {
                assert(projects[i].id == project);
            }
        }
        let changed = self.workspace.rename_project(project, name.as_str());
        MsgStep::WorkspaceReply { changed }
    }

    /// Handle a message of a client: change the session, and say what is left to
    /// do. A client that is held to a single Pane is heard only on that Pane.
    pub fn handle_msg(&mut self, token: Token, msg: ClientMessage, facts: &MsgFacts) -> (step: MsgStep)
        requires
            old(self).wf(),
            facts.now <= u64::MAX - MAX_WAIT_MS,
        ensures
            if old(self).is_direct(token) && !direct_may_send(msg) {
                *final(self) == *old(self) && step is Ignored
            } else {
                msg_done(*old(self), *final(self), token, msg, *facts, step)
            },
            final(self).clients.wf(),
            final(self).workspace@.windows.len() > 0 ==> final(self).wf(),
    {
        let direct = match self.find_client(token) {
            Some(c) => c.direct_only,
            None => false,
        };
        if direct && !may_send_direct(&msg) {
            return MsgStep::Ignored;
        }
        match msg {
            ClientMessage::Attach { cols, rows } => self.on_attach(token, cols, rows),
            ClientMessage::Resize { cols, rows } => {
                if direct {
                    MsgStep::RepaintClient(self.clients.repaint_target(token))
                } else {
                    self.on_resize(token, cols, rows)
                }
            },
            ClientMessage::Input(bytes) => self.on_input(token, bytes, facts),
            ClientMessage::PaneAttach { pane, role } => {
                self.on_pane_attach(token, pane, role, facts.pane_exists)
            },
            ClientMessage::Command(cmd) => MsgStep::RunCommand(cmd),
            ClientMessage::Mouse { x, y, event } => MsgStep::Point { x, y, event },
            ClientMessage::Refresh | ClientMessage::FocusGained => {
                MsgStep::RepaintClient(self.clients.repaint_target(token))
            },
            ClientMessage::OverlayVisible { on } => self.on_overlay(token, on),
            ClientMessage::Detach => MsgStep::Detached,
            ClientMessage::KillServer => MsgStep::Stop,
            ClientMessage::Query(query) => {
                if query == Query::Info {
                    MsgStep::Info {
                        windows: self.workspace.windows.len() as u32,
                        panes: facts.panes as u32,
                    }
                } else {
                    MsgStep::Answer(query)
                }
            },
            ClientMessage::RenameSession { name } => MsgStep::RenameSession(name),
            ClientMessage::ProjectCreate { name, root } => MsgStep::CreateProject { name, root },
            ClientMessage::ProjectRename { project, name } => self.on_project_rename(project, name),
            ClientMessage::ProjectMove { project, towards } => {
                let changed = self.workspace.move_project(project, towards);
                MsgStep::WorkspaceReply { changed }
            },
            ClientMessage::ProjectSwitch { project } => {
                let changed = self.workspace.switch_project(project);
                MsgStep::WorkspaceReply { changed }
            },
            ClientMessage::ProjectRemove { project } => self.on_project_remove(project, facts),
            ClientMessage::PaneFocus { pane } => {
                let found = self.workspace.focus_pane_target(pane).is_some();
                MsgStep::PaneFocused { found }
            },
            ClientMessage::HierarchyFocus { project, tab, ordinal } => {
                self.on_hierarchy_focus(project, tab, ordinal)
            },
            ClientMessage::TabMove { direction } => self.on_tab_move(direction),
            ClientMessage::RenameWindow { name } => {
                self.workspace.rename_tab(name.as_str());
                MsgStep::TabRenamed
            },
            ClientMessage::AgentFocus { pane } => {
                self.workspace.focus_pane_target(pane);
                MsgStep::AgentFocused
            },
            ClientMessage::AgentStop { pane } => {
                if facts.has_agent {
                    MsgStep::PaneClosed(self.workspace.close_pane(pane))
                } else {
                    MsgStep::Ignored
                }
            },
            ClientMessage::AgentsStopAll { scope } => {
                if facts.permitted {
                    let panes = self.workspace.panes_to_stop(
                        scope,
                        &facts.all_panes,
                        &facts.agent_panes,
                    );
                    MsgStep::StopAgents(panes)
                } else {
                    MsgStep::StopUnconfirmed
                }
            },
            ClientMessage::PaneWaitOutput { pane, needle, timeout_ms } => MsgStep::Wait(
                PendingControlWait::for_output(pane, needle.as_str(), timeout_ms, facts.now),
            ),
            ClientMessage::AgentWait { pane, wanted, timeout_ms } => MsgStep::Wait(
                PendingControlWait::for_agent(pane, wanted, timeout_ms, facts.now),
            ),
            ClientMessage::RemoteEnvironment { search_path } => {
                self.on_environment(token, search_path)
            },
            ClientMessage::NewTask { prompt, relay, agent, role_providers, workflow, selector } => {
                let route = route_task(&workflow, relay, role_providers.len());
                MsgStep::Launch { route, prompt, agent, role_providers, workflow, selector }
            },
            ClientMessage::WorkflowSubmit { token: run, failed, verdict, summary } => {
                MsgStep::Submit {
                    kind: OrchestrationKind::Workflow,
                    token: run,
                    status: if failed {
                        SubmissionStatus::Failed
                    } else {
                        SubmissionStatus::Done
                    },
                    verdict,
                    summary,
                    artifacts: Vec::new(),
                }
            },
            ClientMessage::OrchestrationSubmit {
                kind,
                token: run,
                status,
                verdict,
                summary,
                artifacts,
            } => MsgStep::Submit { kind, token: run, status, verdict, summary, artifacts },
            ClientMessage::TaskRetitle { id, title } => {
                let text = trim(title.as_str());
                if text.as_str().is_empty() {
                    assert(text@.len() == 0);
                    MsgStep::TasksReply
                } else {
                    MsgStep::RetitleTask { id, title: text }
                }
            },
            ClientMessage::SaveTask { title } => {
                let text = trim(title.as_str());
                if text.as_str().is_empty() {
                    assert(text@.len() == 0);
                    MsgStep::Ignored
                } else {
                    MsgStep::SaveTask(text)
                }
            },
            ClientMessage::Outside => MsgStep::Outside,
        }
    }
}

/// How long the notice of a refused launch stays.
pub const REFUSAL_NOTICE_MS: u64 = 8_000;

/// A notice over the Panes.
#[derive(Debug)]
pub struct Toast {
    pub pane: PaneId,
    pub title: String,
    pub body: String,
    pub expires: u64,
}

impl Session {
    /// The notice of a launch that was refused.
    pub fn refused_launch(&self, error: &str, now: u64) -> (toast: Toast)
        requires
            self.wf(),
            now <= u64::MAX - REFUSAL_NOTICE_MS,
        ensures
            toast.pane == self.workspace@.tab().active,
            toast.title@ == "Automation launch refused"@,
            toast.body@ == clipped(error@, 16_384),
            toast.expires == now + REFUSAL_NOTICE_MS,
    {
        Toast {
            pane: self.workspace.windows[self.workspace.active_window].active,
            title: "Automation launch refused".to_owned(),
            body: clip(error, 16_384),
            expires: now + REFUSAL_NOTICE_MS,
        }
    }
}

/// A client that is held to a single Pane never changes the Workspace or the
/// view, whatever it sends.
pub proof fn lemma_direct_client_contained(
    a: Session,
    b: Session,
    token: Token,
    msg: ClientMessage,
    facts: MsgFacts,
    step: MsgStep,
)
    requires
        a.is_direct(token),
        if direct_may_send(msg) {
            msg_done(a, b, token, msg, facts, step)
        } else {
            b == a && step is Ignored
        },
    ensures
        b.workspace == a.workspace,
        b.view == a.view,
        b.search_path == a.search_path,
{
}

} // verus!
