//! The control interface: requests of other programs, answered from the same
//! operations that keys and clicks use.
use crate::hierarchy::{project_at, tabs_of, unshown, Win, Workspace, WorkspaceState};
use crate::listings::StopScope;
use crate::orchestration::{ActiveRun, OrchestrationKind, Orchestrations, Phase};
use crate::projects::{ProjectMoveDirection, RemovedProject, TabMoveDirection};
use crate::tabs::ClosedPane;
use crate::text::{same_text, trim, trimmed};
use crate::types::{PaneId, ProjectId};
use vstd::prelude::*;

verus! {

/// A request: the version of the interface that it was written for, the
/// Workspace that it is meant for, and what it asks.
#[derive(Debug)]
pub struct ControlRequest {
    pub version: u32,
    pub workspace: String,
    pub command: ControlCommand,
}

/// What a request asks for.
#[derive(Debug)]
pub enum ControlCommand {
    Capabilities,
    /// A list of what the Workspace holds.
    Snapshot,
    PaneRead { pane: PaneId, lines: u32 },
    PaneSend { pane: PaneId, text: String },
    Subscribe { after_sequence: u64 },
    ProjectCreate { name: String, root: String },
    ProjectRename { project: ProjectId, name: String },
    ProjectMove { project: ProjectId, towards: ProjectMoveDirection },
    ProjectSwitch { project: ProjectId },
    ProjectRemove { project: ProjectId },
    TabCreate { project: ProjectId },
    TabRename { project: ProjectId, tab: u32, name: String },
    TabMove { project: ProjectId, tab: u32, direction: TabMoveDirection },
    HierarchyFocus { project: ProjectId, tab: u32, ordinal: Option<u32> },
    AgentLaunch { agent: String },
    AgentFocus { pane: PaneId },
    AgentStop { pane: PaneId },
    AgentStopAll { scope: StopScope },
    TaskCreate { title: String },
    TaskRetitle { id: u64, title: String },
    TaskChange { id: u64 },
    WaitingAct { id: u64 },
    InstructionChange,
    OrchestrationStart { kind: OrchestrationKind, template: Option<String> },
    OrchestrationSubmit { kind: OrchestrationKind, token: u64 },
    /// Work in a repository, which runs outside.
    Worktree,
    RunFork,
}

/// Why a request is refused.
#[derive(Clone, Copy, Debug, PartialEq, Eq, Structural)]
pub enum ControlError {
    UnsupportedVersion,
    WorkspaceMismatch,
    RemovalUnconfirmed,
    StopUnconfirmed,
    InvalidCursor,
    TemplateMissing,
    TemplateUnexpected,
}

impl ControlError {
    /// The code of the refusal.
    pub open spec fn code_text(self) -> Seq<char> {
        match self {
            ControlError::UnsupportedVersion => "unsupported_version"@,
            ControlError::WorkspaceMismatch => "workspace_mismatch"@,
            ControlError::RemovalUnconfirmed => "confirmation_required"@,
            ControlError::StopUnconfirmed => "confirmation_required"@,
            ControlError::InvalidCursor => "invalid_cursor"@,
            ControlError::TemplateMissing => "invalid_orchestration_launch"@,
            ControlError::TemplateUnexpected => "invalid_orchestration_launch"@,
        }
    }

    /// What the refusal says.
    pub open spec fn message_text(self) -> Seq<char> {
        match self {
            ControlError::UnsupportedVersion => "unsupported control API version"@,
            ControlError::WorkspaceMismatch => "request does not own this Workspace"@,
            ControlError::RemovalUnconfirmed =>
            "project_remove closes every Pane the Project owns; pass \"confirmed\": true"@,
            ControlError::StopUnconfirmed =>
            "agent_stop_all closes every agent Pane in scope; pass \"confirmed\": true"@,
            ControlError::InvalidCursor =>
            "after_sequence is newer than the Workspace event cursor"@,
            ControlError::TemplateMissing => "workflow launch requires a template"@,
            ControlError::TemplateUnexpected =>
            "relay launch does not accept a workflow template"@,
        }
    }

    /// The code of the refusal.
    pub fn code(&self) -> (text: &'static str)
        ensures
            text@ == self.code_text(),
    {
        match self {
            ControlError::UnsupportedVersion => "unsupported_version",
            ControlError::WorkspaceMismatch => "workspace_mismatch",
            ControlError::RemovalUnconfirmed => "confirmation_required",
            ControlError::StopUnconfirmed => "confirmation_required",
            ControlError::InvalidCursor => "invalid_cursor",
            ControlError::TemplateMissing => "invalid_orchestration_launch",
            ControlError::TemplateUnexpected => "invalid_orchestration_launch",
        }
    }

    /// What the refusal says.
    pub fn message(&self) -> (text: &'static str)
        ensures
            text@ == self.message_text(),
    {
        match self {
            ControlError::UnsupportedVersion => "unsupported control API version",
            ControlError::WorkspaceMismatch => "request does not own this Workspace",
            ControlError::RemovalUnconfirmed => {
                "project_remove closes every Pane the Project owns; pass \"confirmed\": true"
            },
            ControlError::StopUnconfirmed => {
                "agent_stop_all closes every agent Pane in scope; pass \"confirmed\": true"
            },
            ControlError::InvalidCursor => {
                "after_sequence is newer than the Workspace event cursor"
            },
            ControlError::TemplateMissing => "workflow launch requires a template",
            ControlError::TemplateUnexpected => "relay launch does not accept a workflow template",
        }
    }
}

/// What a change was made to.
#[derive(Clone, Copy, Debug, PartialEq, Eq, Structural)]
pub enum Resource {
    Project,
    Tab,
    Pane,
    Agent,
    Task,
    Waiting,
}

/// The answer to a request.
#[derive(Clone, Copy, Debug, PartialEq, Eq, Structural)]
pub enum ControlReply {
    Refused(ControlError),
    /// A change: what it was made to, whether that was found, and whether the
    /// change took place.
    Mutation { resource: Resource, id: Option<u64>, found: bool, accepted: bool },
    Subscribed { current_sequence: u64 },
    Submitted { accepted: bool },
    PaneSent { pane: PaneId, found: bool, accepted: bool },
    InstructionChanged { instruction: u64, found: bool, accepted: bool },
    Started { run: u64 },
    /// The launch failed; the reason came from outside.
    LaunchFailed,
}

/// What a request finds outside the Workspace.
#[derive(Debug)]
pub struct ControlFacts {
    pub version: u32,
    /// The newest event of the Workspace.
    pub sequence: u64,
    /// The rules on destructive commands let this one pass.
    pub permitted: bool,
    /// The Project named is a worktree.
    pub worktree: bool,
    /// The Pane that was opened for the request.
    pub spawned: Option<PaneId>,
    /// The Pane named runs an agent.
    pub has_agent: bool,
    pub all_panes: Vec<PaneId>,
    pub agent_panes: Vec<PaneId>,
}

/// What a request leaves to do.
#[derive(Debug)]
pub struct ControlOutcome {
    /// The answer; `None` where it comes from what is carried out outside.
    pub reply: Option<ControlReply>,
    /// Panes to stop.
    pub stop: Vec<PaneId>,
    pub closed: Option<ClosedPane>,
    pub removed: Option<RemovedProject>,
}

impl ActiveRun {
    /// The run waits for a submission with this token.
    pub open spec fn awaits(self, token: u64) -> bool {
        self.state.token == token && self.state.phase == Phase::Awaiting
    }
}

/// Some run of the list waits for this token.
pub open spec fn some_awaits(runs: Seq<ActiveRun>, token: u64) -> bool {
    exists|i: int| 0 <= i < runs.len() && (#[trigger] runs[i]).awaits(token)
}

fn any_awaits(runs: &Vec<ActiveRun>, token: u64) -> (found: bool)
    ensures
        found == some_awaits(runs@, token),
{
    let mut i: usize = 0;
    while i < runs.len()
        invariant
            i <= runs@.len(),
            forall|k: int| 0 <= k < i ==> !(#[trigger] runs@[k]).awaits(token),
        decreases runs@.len() - i,
    {
        if runs[i].state.token == token && runs[i].state.phase == Phase::Awaiting {
            assert(runs@[i as int].awaits(token));
            return true;
        }
        i += 1;
    }
    false
}

impl Orchestrations {
    /// A run of this kind waits for this token.
    pub open spec fn awaiting(self, kind: OrchestrationKind, token: u64) -> bool {
        match kind {
            OrchestrationKind::Workflow => some_awaits(self.workflows@, token),
            OrchestrationKind::Relay => some_awaits(self.relays@, token),
        }
    }

    /// Whether a run of this kind waits for this token.
    pub fn is_awaiting(&self, kind: OrchestrationKind, token: u64) -> (found: bool)
        ensures
            found == self.awaiting(kind, token),
    {
        match kind {
            OrchestrationKind::Workflow => any_awaits(&self.workflows, token),
            OrchestrationKind::Relay => any_awaits(&self.relays, token),
        }
    }
}

/// Why a request is refused before anything happens.
pub open spec fn refusal(name: Seq<char>, r: ControlRequest, facts: ControlFacts) -> Option<
    ControlError,
> {
    if r.version != facts.version {
        Some(ControlError::UnsupportedVersion)
    } else if r.workspace@ != name {
        Some(ControlError::WorkspaceMismatch)
    } else {
        match r.command {
            ControlCommand::ProjectRemove { .. } => if facts.permitted {
                None
            } else {
                Some(ControlError::RemovalUnconfirmed)
            },
            ControlCommand::AgentStopAll { .. } => if facts.permitted {
                None
            } else {
                Some(ControlError::StopUnconfirmed)
            },
            ControlCommand::Subscribe { after_sequence } => if after_sequence > facts.sequence {
                Some(ControlError::InvalidCursor)
            } else {
                None
            },
            ControlCommand::OrchestrationStart { kind, template } => if kind
                == OrchestrationKind::Workflow && template is None {
                Some(ControlError::TemplateMissing)
            } else if kind == OrchestrationKind::Relay && template is Some {
                Some(ControlError::TemplateUnexpected)
            } else {
                None
            },
            _ => None,
        }
    }
}

/// Decide whether a request is refused.
pub fn refuse_request(name: &str, r: &ControlRequest, facts: &ControlFacts) -> (refused: Option<
    ControlError,
>)
    ensures
        refused == refusal(name@, *r, *facts),
{
    if r.version != facts.version {
        return Some(ControlError::UnsupportedVersion);
    }
    if !same_text(r.workspace.as_str(), name) {
        return Some(ControlError::WorkspaceMismatch);
    }
    match &r.command {
        ControlCommand::ProjectRemove { .. } => {
            if facts.permitted {
                None
            } else {
                Some(ControlError::RemovalUnconfirmed)
            }
        },
        ControlCommand::AgentStopAll { .. } => {
            if facts.permitted {
                None
            } else {
                Some(ControlError::StopUnconfirmed)
            }
        },
        ControlCommand::Subscribe { after_sequence } => {
            if *after_sequence > facts.sequence {
                Some(ControlError::InvalidCursor)
            } else {
                None
            }
        },
        ControlCommand::OrchestrationStart { kind, template } => {
            if *kind == OrchestrationKind::Workflow && template.is_none() {
                Some(ControlError::TemplateMissing)
            } else if *kind == OrchestrationKind::Relay && template.is_some() {
                Some(ControlError::TemplateUnexpected)
            } else {
                None
            }
        },
        _ => None,
    }
}

/// A Project got the trimmed name, and nothing else changed.
pub open spec fn project_renamed(
    before: WorkspaceState,
    after: WorkspaceState,
    project: ProjectId,
    name: Seq<char>,
) -> bool {
    match project_at(before.projects, project) {
        Some(i) => if trimmed(name).len() > 0 {
            &&& after.projects.len() == before.projects.len()
            &&& after.projects[i].name@ == trimmed(name)
            &&& after == (WorkspaceState {
                projects: before.projects.update(
                    i,
                    crate::hierarchy::Project {
                        name: after.projects[i].name,
                        ..before.projects[i]
                    },
                ),
                ..before
            })
        } else {
            after == before
        },
        None => after == before,
    }
}

/// The active Tab got the trimmed name, or none for a blank one, and nothing
/// else changed.
pub open spec fn tab_renamed(
    before: WorkspaceState,
    after: WorkspaceState,
    name: Seq<char>,
) -> bool {
    &&& match after.tab().name {
        Some(text) => trimmed(name).len() > 0 && text@ == trimmed(name),
        None => trimmed(name).len() == 0,
    }
    &&& after == before.with_tab(Win { name: after.tab().name, ..before.tab() })
}

impl WorkspaceState {
    /// The state after a Project was removed on request: not a worktree, and
    /// not the last one.
    pub open spec fn removed_on_request(self, project: ProjectId, worktree: bool) -> WorkspaceState {
        if !worktree && self.removable(project) {
            self.without_project(project)
        } else {
            self
        }
    }

    /// The state after a Tab was opened in a Project on request.
    pub open spec fn tab_created(self, project: ProjectId, spawned: Option<PaneId>) -> WorkspaceState {
        if project_at(self.projects, project) is Some {
            match spawned {
                Some(pane) => self.switch_to(project).push(pane),
                None => self.switch_to(project),
            }
        } else {
            self
        }
    }

    /// The state after the focus went to a Tab, and to a Pane of it, on request.
    pub open spec fn hierarchy_focused(
        self,
        project: ProjectId,
        tab: u32,
        pane: Option<u32>,
    ) -> WorkspaceState {
        match self.ordinal_target(project, tab, pane) {
            Some(target) => self.focus_on(target),
            None => self,
        }
    }

    /// The state after a Tab was moved on request.
    pub open spec fn tab_moved(
        self,
        project: ProjectId,
        tab: u32,
        direction: TabMoveDirection,
    ) -> WorkspaceState {
        let focused = self.hierarchy_focused(project, tab, None);
        if self.ordinal_target(project, tab, None) is Some && focused.tab_move(direction) is Some {
            focused.move_tab(direction)
        } else {
            focused
        }
    }
}

/// What a request that is not refused does to the Workspace.
pub open spec fn carried_out(
    before: WorkspaceState,
    after: WorkspaceState,
    command: ControlCommand,
    facts: ControlFacts,
) -> bool {
    match command {
        ControlCommand::ProjectRename { project, name } => project_renamed(
            before,
            after,
            project,
            name@,
        ),
        ControlCommand::ProjectMove { project, towards } => after == before.move_project(
            project,
            towards,
        ),
        ControlCommand::ProjectSwitch { project } => after == before.switch_to(project),
        ControlCommand::ProjectRemove { project } => after == before.removed_on_request(
            project,
            facts.worktree,
        ),
        ControlCommand::TabCreate { project } => after == before.tab_created(
            project,
            facts.spawned,
        ),
        ControlCommand::TabRename { project, tab, name } => {
            let focused = before.hierarchy_focused(project, tab, None);
            if before.ordinal_target(project, tab, None) is Some && trimmed(name@).len() > 0 {
                tab_renamed(focused, after, name@)
            } else {
                after == focused
            }
        },
        ControlCommand::TabMove { project, tab, direction } => after == before.tab_moved(
            project,
            tab,
            direction,
        ),
        ControlCommand::HierarchyFocus { project, tab, ordinal } => after
            == before.hierarchy_focused(project, tab, ordinal),
        ControlCommand::AgentFocus { pane } => after == if facts.has_agent {
            before.focus_on(pane)
        } else {
            before
        },
        ControlCommand::AgentStop { pane } => after == if facts.has_agent {
            before.close(pane)
        } else {
            before
        },
        _ => after == before,
    }
}

/// The answer to a change.
pub open spec fn mutation(
    resource: Resource,
    id: Option<u64>,
    found: bool,
    accepted: bool,
) -> Option<ControlReply> {
    Some(ControlReply::Mutation { resource, id, found, accepted })
}

/// The answer to a request that is not refused; `None` where it comes from what
/// is carried out outside.
pub open spec fn answer(
    before: WorkspaceState,
    after: WorkspaceState,
    command: ControlCommand,
    facts: ControlFacts,
    runs: Orchestrations,
) -> Option<ControlReply> {
    match command {
        ControlCommand::ProjectRename { project, name } => {
            let found = project_at(before.projects, project) is Some;
            mutation(
                Resource::Project,
                Some(project.0),
                found,
                found && trimmed(name@).len() > 0,
            )
        },
        ControlCommand::ProjectMove { project, towards } => mutation(
            Resource::Project,
            Some(project.0),
            project_at(before.projects, project) is Some,
            before.project_move(project, towards) is Some,
        ),
        ControlCommand::ProjectSwitch { project } => {
            let found = project_at(before.projects, project) is Some;
            mutation(
                Resource::Project,
                Some(project.0),
                found,
                found && after.active_project == project,
            )
        },
        ControlCommand::ProjectRemove { project } => mutation(
            Resource::Project,
            Some(project.0),
            project_at(before.projects, project) is Some,
            !facts.worktree && before.removable(project) && project_at(
                after.projects,
                project,
            ) is None,
        ),
        ControlCommand::TabCreate { project } => {
            let held = tabs_of(before.windows, project).len();
            let accepted = tabs_of(after.windows, project).len() > held;
            mutation(
                Resource::Tab,
                if accepted {
                    Some((held + 1) as u64)
                } else {
                    None
                },
                project_at(before.projects, project) is Some,
                accepted,
            )
        },
        ControlCommand::TabRename { project, tab, name } => {
            let found = before.ordinal_target(project, tab, None) is Some;
            mutation(Resource::Tab, Some(tab as u64), found, found && trimmed(name@).len() > 0)
        },
        ControlCommand::TabMove { project, tab, direction } => {
            let found = before.ordinal_target(project, tab, None) is Some;
            let focused = before.hierarchy_focused(project, tab, None);
            mutation(
                Resource::Tab,
                Some(tab as u64),
                found,
                found && focused.tab_move(direction) is Some,
            )
        },
        ControlCommand::HierarchyFocus { project, tab, ordinal } => {
            let target = before.ordinal_target(project, tab, ordinal);
            mutation(
                Resource::Pane,
                match target {
                    Some(p) => Some(p.0),
                    None => None,
                },
                target is Some,
                target is Some,
            )
        },
        ControlCommand::AgentFocus { pane } => mutation(
            Resource::Agent,
            Some(pane.0),
            facts.has_agent,
            facts.has_agent && crate::hierarchy::window_of(before.windows, pane) is Some,
        ),
        ControlCommand::AgentStop { pane } => mutation(
            Resource::Agent,
            Some(pane.0),
            facts.has_agent,
            facts.has_agent,
        ),
        ControlCommand::AgentStopAll { scope } => {
            let scoped = before.scope_panes(scope, facts.all_panes@);
            mutation(
                Resource::Agent,
                None,
                facts.agent_panes@.len() > 0,
                crate::listings::among(scoped, scoped.len(), facts.agent_panes@).len() > 0,
            )
        },
        ControlCommand::TaskCreate { title } => if trimmed(title@).len() == 0 {
            mutation(Resource::Task, None, true, false)
        } else {
            None
        },
        ControlCommand::Subscribe { .. } => Some(
            ControlReply::Subscribed { current_sequence: facts.sequence },
        ),
        ControlCommand::OrchestrationSubmit { kind, token } => Some(
            ControlReply::Submitted { accepted: runs.awaiting(kind, token) },
        ),
        _ => None,
    }
}

/// The Panes that a request stops.
pub open spec fn to_stop(
    before: WorkspaceState,
    command: ControlCommand,
    facts: ControlFacts,
) -> Seq<PaneId> {
    match command {
        ControlCommand::AgentStopAll { scope } => {
            let scoped = before.scope_panes(scope, facts.all_panes@);
            crate::listings::among(scoped, scoped.len(), facts.agent_panes@)
        },
        _ => Seq::empty(),
    }
}

fn replied(resource: Resource, id: Option<u64>, found: bool, accepted: bool) -> (out: ControlOutcome)
    ensures
        out.reply == mutation(resource, id, found, accepted),
        out.stop@ == Seq::<PaneId>::empty(),
        out.closed is None,
        out.removed is None,
{
    ControlOutcome {
        reply: Some(ControlReply::Mutation { resource, id, found, accepted }),
        stop: Vec::new(),
        closed: None,
        removed: None,
    }
}

fn answered(reply: Option<ControlReply>) -> (out: ControlOutcome)
    ensures
        out.reply == reply,
        out.stop@ == Seq::<PaneId>::empty(),
        out.closed is None,
        out.removed is None,
{
    ControlOutcome { reply, stop: Vec::new(), closed: None, removed: None }
}

/// A trimmed text is empty.
fn is_blank(text: &str) -> (blank: bool)
    ensures
        blank == (trimmed(text@).len() == 0),
{
    let t = trim(text);
    let blank = t.as_str().is_empty();
    blank
}

impl Workspace {
    /// Give the active Tab a name, trimmed; a blank one takes the name away.
    pub fn rename_tab(&mut self, name: &str)
        requires
            old(self)@.wf(),
        ensures
            tab_renamed(old(self)@, final(self)@, name@),
            final(self)@.wf(),
            old(self)@.all_open() ==> final(self)@.all_open(),
    {
        let ghost s = self@;
        let text = trim(name);
        let blank = text.as_str().is_empty();
        let w: usize = self.active_window;
        let given = if blank {
            None
        } else {
            Some(text)
        };
        proof {
            assert(s.windows[w as int].wf());
            let win = Win { name: given, ..s.tab() };
            crate::focus::lemma_refocus_wf(s, w as int, win);
        }
        self.windows[w].name = given;
        assert(self@.windows =~= s.with_tab(Win { name: given, ..s.tab() }).windows);
    }

    fn control_rename(&mut self, project: ProjectId, name: &String) -> (out: ControlOutcome)
        requires
            old(self)@.wf(),
        ensures
            final(self)@.wf(),
            project_renamed(old(self)@, final(self)@, project, name@),
            ({
                let found = project_at(old(self)@.projects, project) is Some;
                out.reply == mutation(
                    Resource::Project,
                    Some(project.0),
                    found,
                    found && trimmed(name@).len() > 0,
                )
            }),
            out.stop@ == Seq::<PaneId>::empty(),
            out.closed is None,
            out.removed is None,
    {
        proof {
            if crate::hierarchy::known(self@.projects, project) {
                crate::hierarchy::lemma_project_at_found(self@.projects, project);
            } else if let Some(i) = project_at(self@.projects, project) {
                assert(self@.projects[i].id == project);
            }
        }
        let found = self.project_position(project).is_some();
        let accepted = self.rename_project(project, name.as_str());
        replied(Resource::Project, Some(project.0), found, accepted)
    }

    fn control_remove(&mut self, project: ProjectId, worktree: bool) -> (out: ControlOutcome)
        requires
            old(self)@.wf(),
        ensures
            final(self)@ == old(self)@.removed_on_request(project, worktree),
            out.reply == mutation(
                Resource::Project,
                Some(project.0),
                project_at(old(self)@.projects, project) is Some,
                !worktree && old(self)@.removable(project) && project_at(
                    final(self)@.projects,
                    project,
                ) is None,
            ),
            out.stop@ == Seq::<PaneId>::empty(),
            out.closed is None,
            out.removed is Some <==> !worktree && old(self)@.removable(project),
            out.removed matches Some(r) ==> r.stopped == (final(self)@.windows.len() == 0)
                && r.panes@ == crate::projects::project_panes(old(self)@.windows, project),
            final(self)@.windows.len() > 0 ==> final(self)@.wf(),
    {
        let found = self.project_position(project).is_some();
        if worktree {
            return replied(Resource::Project, Some(project.0), found, false);
        }
        let removed = self.remove_project(project);
        let accepted = removed.is_some() && self.project_position(project).is_none();
        ControlOutcome {
            reply: Some(
                ControlReply::Mutation {
                    resource: Resource::Project,
                    id: Some(project.0),
                    found,
                    accepted,
                },
            ),
            stop: Vec::new(),
            closed: None,
            removed,
        }
    }

    fn control_new_tab(&mut self, project: ProjectId, spawned: Option<PaneId>) -> (out: ControlOutcome)
        requires
            old(self)@.wf(),
            spawned matches Some(pane) ==> unshown(old(self)@.windows, pane),
        ensures
            final(self)@.wf(),
            final(self)@ == old(self)@.tab_created(project, spawned),
            ({
                let held = tabs_of(old(self)@.windows, project).len();
                let accepted = tabs_of(final(self)@.windows, project).len() > held;
                out.reply == mutation(
                    Resource::Tab,
                    if accepted {
                        Some((held + 1) as u64)
                    } else {
                        None
                    },
                    project_at(old(self)@.projects, project) is Some,
                    accepted,
                )
            }),
            out.stop@ == Seq::<PaneId>::empty(),
            out.closed is None,
            out.removed is None,
    {
        let ghost s = self@;
        let found = self.project_position(project).is_some();
        let held: usize = self.project_window_indices(project).len();
        if found {
            self.switch_project(project);
            assert(self@.windows == s.windows);
            if let Some(pane) = spawned {
                self.push_window(pane);
            }
        }
        let now: usize = self.project_window_indices(project).len();
        if now > held {
            replied(Resource::Tab, Some(held as u64 + 1), found, true)
        } else {
            replied(Resource::Tab, None, found, false)
        }
    }

    fn control_focus(&mut self, project: ProjectId, tab: u32, pane: Option<u32>) -> (target: Option<
        PaneId,
    >)
        requires
            old(self)@.wf(),
        ensures
            final(self)@.wf(),
            target == old(self)@.ordinal_target(project, tab, pane),
            final(self)@ == old(self)@.hierarchy_focused(project, tab, pane),
    {
        match self.focus_hierarchy_target(project, tab, pane) {
            Some(f) => Some(f.pane),
            None => None,
        }
    }

    fn control_name_tab(&mut self, project: ProjectId, tab: u32, name: &String) -> (out: ControlOutcome)
        requires
            old(self)@.wf(),
        ensures
            final(self)@.wf(),
            ({
                let focused = old(self)@.hierarchy_focused(project, tab, None);
                let found = old(self)@.ordinal_target(project, tab, None) is Some;
                &&& if found && trimmed(name@).len() > 0 {
                    tab_renamed(focused, final(self)@, name@)
                } else {
                    final(self)@ == focused
                }
                &&& out.reply == mutation(
                    Resource::Tab,
                    Some(tab as u64),
                    found,
                    found && trimmed(name@).len() > 0,
                )
            }),
            out.stop@ == Seq::<PaneId>::empty(),
            out.closed is None,
            out.removed is None,
    {
        let found = self.control_focus(project, tab, None).is_some();
        let accepted = found && !is_blank(name.as_str());
        if accepted {
            self.rename_tab(name.as_str());
        }
        replied(Resource::Tab, Some(tab as u64), found, accepted)
    }

    fn control_move_tab(&mut self, project: ProjectId, tab: u32, direction: TabMoveDirection) -> (out:
        ControlOutcome)
        requires
            old(self)@.wf(),
        ensures
            final(self)@.wf(),
            final(self)@ == old(self)@.tab_moved(project, tab, direction),
            ({
                let found = old(self)@.ordinal_target(project, tab, None) is Some;
                let focused = old(self)@.hierarchy_focused(project, tab, None);
                out.reply == mutation(
                    Resource::Tab,
                    Some(tab as u64),
                    found,
                    found && focused.tab_move(direction) is Some,
                )
            }),
            out.stop@ == Seq::<PaneId>::empty(),
            out.closed is None,
            out.removed is None,
    {
        let found = self.control_focus(project, tab, None).is_some();
        let mut accepted = false;
        if found {
            assert(self.windows.len() <= usize::MAX);
            let ghost focused = self@;
            accepted = self.move_active_tab(direction).is_some();
            proof {
                crate::projects::lemma_active_position(focused);
            }
        }
        replied(Resource::Tab, Some(tab as u64), found, accepted)
    }

    /// Answer a request of the control interface. A refused request changes
    /// nothing; a change is made by the operation that keys and clicks use, and
    /// the answer says whether it took place.
    pub fn on_control_request(
        &mut self,
        name: &str,
        r: &ControlRequest,
        facts: &ControlFacts,
        runs: &Orchestrations,
    ) -> (out: ControlOutcome)
        requires
            old(self)@.wf(),
            facts.spawned matches Some(pane) ==> unshown(old(self)@.windows, pane),
        ensures
            match refusal(name@, *r, *facts) {
                Some(error) => out.reply == Some(ControlReply::Refused(error)) && final(self)@
                    == old(self)@ && out.stop@.len() == 0 && out.closed is None && out.removed is None,
                None => {
                    &&& carried_out(old(self)@, final(self)@, r.command, *facts)
                    &&& out.reply == answer(old(self)@, final(self)@, r.command, *facts, *runs)
                    &&& out.stop@ == to_stop(old(self)@, r.command, *facts)
                    &&& out.closed == match r.command {
                        ControlCommand::AgentStop { pane } => if facts.has_agent {
                            Some(old(self)@.closing(pane))
                        } else {
                            None
                        },
                        _ => None,
                    }
                    &&& match r.command {
                        ControlCommand::ProjectRemove { project } => {
                            &&& out.removed is Some <==> !facts.worktree && old(self)@.removable(
                                project,
                            )
                            &&& out.removed matches Some(g) ==> g.stopped == (
                            final(self)@.windows.len() == 0) && g.panes@
                                == crate::projects::project_panes(old(self)@.windows, project)
                        },
                        _ => out.removed is None,
                    }
                },
            },
            final(self)@.windows.len() > 0 ==> final(self)@.wf(),
    {
        let ghost s = self@;
        assert(self.windows.len() <= usize::MAX);
        if let Some(error) = refuse_request(name, r, facts) {
            return answered(Some(ControlReply::Refused(error)));
        }
        match &r.command {
            ControlCommand::ProjectRename { project, name } => self.control_rename(*project, name),
            ControlCommand::ProjectMove { project, towards } => {
                let found = self.project_position(*project).is_some();
                let moved = self.move_project(*project, *towards);
                replied(Resource::Project, Some(project.0), found, moved)
            },
            ControlCommand::ProjectSwitch { project } => {
                let found = self.project_position(*project).is_some();
                self.switch_project(*project);
                let shown = self.active_project == *project;
                replied(Resource::Project, Some(project.0), found, found && shown)
            },
            ControlCommand::ProjectRemove { project } => {
                self.control_remove(*project, facts.worktree)
            },
            ControlCommand::TabCreate { project } => self.control_new_tab(*project, facts.spawned),
            ControlCommand::TabRename { project, tab, name } => {
                self.control_name_tab(*project, *tab, name)
            },
            ControlCommand::TabMove { project, tab, direction } => {
                self.control_move_tab(*project, *tab, *direction)
            },
            ControlCommand::HierarchyFocus { project, tab, ordinal } => {
                match self.control_focus(*project, *tab, *ordinal) {
                    Some(target) => replied(Resource::Pane, Some(target.0), true, true),
                    None => replied(Resource::Pane, None, false, false),
                }
            },
            ControlCommand::AgentFocus { pane } => {
                let mut accepted = false;
                if facts.has_agent {
                    accepted = self.focus_pane_target(*pane).is_some();
                }
                replied(Resource::Agent, Some(pane.0), facts.has_agent, accepted)
            },
            ControlCommand::AgentStop { pane } => {
                let mut out = replied(
                    Resource::Agent,
                    Some(pane.0),
                    facts.has_agent,
                    facts.has_agent,
                );
                if facts.has_agent {
                    let done = self.close_pane(*pane);
                    proof {
                        crate::tabs::lemma_close_tabs(s, *pane);
                    }
                    out.closed = Some(done);
                }
                out
            },
            ControlCommand::AgentStopAll { scope } => {
                let stop = self.panes_to_stop(*scope, &facts.all_panes, &facts.agent_panes);
                let some = stop.len() > 0;
                let mut out = replied(
                    Resource::Agent,
                    None,
                    facts.agent_panes.len() > 0,
                    some,
                );
                out.stop = stop;
                out
            },
            ControlCommand::TaskCreate { title } => {
                if is_blank(title.as_str()) {
                    replied(Resource::Task, None, true, false)
                } else {
                    answered(None)
                }
            },
            ControlCommand::Subscribe { .. } => {
                answered(Some(ControlReply::Subscribed { current_sequence: facts.sequence }))
            },
            ControlCommand::OrchestrationSubmit { kind, token } => {
                let accepted = runs.is_awaiting(*kind, *token);
                answered(Some(ControlReply::Submitted { accepted }))
            },
            _ => answered(None),
        }
    }
}

/// What the control interface offers.
pub open spec fn capability_names() -> Seq<Seq<char>> {
    seq![
        "workspace.snapshot"@,
        "pane.list"@,
        "pane.read"@,
        "pane.send"@,
        "pane.attach.binary.v6"@,
        "instruction.list"@,
        "instruction.add"@,
        "instruction.replace"@,
        "instruction.cancel"@,
        "instruction.send_now"@,
        "worktree.list"@,
        "worktree.add"@,
        "worktree.open"@,
        "worktree.remove"@,
        "worktree.cleanup"@,
        "run.list"@,
        "artifact.list"@,
        "orchestration.start"@,
        "run.fork"@,
        "project.create"@,
        "project.rename"@,
        "project.move"@,
        "project.switch"@,
        "project.remove"@,
        "tab.create"@,
        "tab.rename"@,
        "tab.move"@,
        "hierarchy.focus"@,
        "agent.list"@,
        "agent.launch"@,
        "agent.focus"@,
        "agent.stop"@,
        "agent.stop_all"@,
        "task.list"@,
        "task.create"@,
        "task.set_status"@,
        "task.retitle"@,
        "task.delete"@,
        "waiting.list"@,
        "waiting.act"@,
        "orchestration.submit"@,
        "events.subscribe"@,
    ]
}

fn push_name(list: &mut Vec<String>, name: &str)
    ensures
        crate::search_path::texts(final(list)@) == crate::search_path::texts(old(list)@).push(
            name@,
        ),
{
    let ghost before = list@;
    list.push(name.to_owned());
    assert(crate::search_path::texts(list@) =~= crate::search_path::texts(before).push(name@));
}

/// What the control interface offers.
pub fn capabilities() -> (list: Vec<String>)
    ensures
        crate::search_path::texts(list@) == capability_names(),
{
    let mut list: Vec<String> = Vec::new();
    assert(crate::search_path::texts(list@) =~= Seq::empty());
    push_name(&mut list, "workspace.snapshot");
    push_name(&mut list, "pane.list");
    push_name(&mut list, "pane.read");
    push_name(&mut list, "pane.send");
    push_name(&mut list, "pane.attach.binary.v6");
    push_name(&mut list, "instruction.list");
    push_name(&mut list, "instruction.add");
    push_name(&mut list, "instruction.replace");
    push_name(&mut list, "instruction.cancel");
    push_name(&mut list, "instruction.send_now");
    push_name(&mut list, "worktree.list");
    push_name(&mut list, "worktree.add");
    push_name(&mut list, "worktree.open");
    push_name(&mut list, "worktree.remove");
    push_name(&mut list, "worktree.cleanup");
    push_name(&mut list, "run.list");
    push_name(&mut list, "artifact.list");
    push_name(&mut list, "orchestration.start");
    push_name(&mut list, "run.fork");
    push_name(&mut list, "project.create");
    push_name(&mut list, "project.rename");
    push_name(&mut list, "project.move");
    push_name(&mut list, "project.switch");
    push_name(&mut list, "project.remove");
    push_name(&mut list, "tab.create");
    push_name(&mut list, "tab.rename");
    push_name(&mut list, "tab.move");
    push_name(&mut list, "hierarchy.focus");
    push_name(&mut list, "agent.list");
    push_name(&mut list, "agent.launch");
    push_name(&mut list, "agent.focus");
    push_name(&mut list, "agent.stop");
    push_name(&mut list, "agent.stop_all");
    push_name(&mut list, "task.list");
    push_name(&mut list, "task.create");
    push_name(&mut list, "task.set_status");
    push_name(&mut list, "task.retitle");
    push_name(&mut list, "task.delete");
    push_name(&mut list, "waiting.list");
    push_name(&mut list, "waiting.act");
    push_name(&mut list, "orchestration.submit");
    push_name(&mut list, "events.subscribe");
    list
}

/// What came of the part of a request that is carried out outside.
#[derive(Clone, Copy, Debug, PartialEq, Eq, Structural)]
pub struct OutsideResult {
    /// What was made: a Project, a task, a Pane, an instruction or a run.
    pub id: Option<u64>,
    /// What the request names is there.
    pub found: bool,
    pub accepted: bool,
}

/// The answer to a request that was carried out outside; `None` for the others.
/// A Project and a task that were not made have no id; an agent is accepted
/// where it got a Pane, a launch where it got a run.
pub open spec fn outside_answer(command: ControlCommand, done: OutsideResult) -> Option<
    ControlReply,
> {
    match command {
        ControlCommand::ProjectCreate { .. } => mutation(
            Resource::Project,
            if done.accepted {
                done.id
            } else {
                None
            },
            true,
            done.accepted,
        ),
        ControlCommand::AgentLaunch { .. } => mutation(
            Resource::Agent,
            done.id,
            done.found,
            done.id is Some,
        ),
        ControlCommand::TaskCreate { .. } => mutation(Resource::Task, done.id, true, done.id is Some),
        ControlCommand::TaskRetitle { id, title } => mutation(
            Resource::Task,
            Some(id),
            done.found,
            trimmed(title@).len() > 0 && done.accepted,
        ),
        ControlCommand::TaskChange { id } => mutation(
            Resource::Task,
            Some(id),
            done.found,
            done.accepted,
        ),
        ControlCommand::WaitingAct { id } => mutation(
            Resource::Waiting,
            Some(id),
            done.found,
            done.accepted,
        ),
        ControlCommand::PaneSend { pane, .. } => Some(
            ControlReply::PaneSent { pane, found: done.found, accepted: done.found && done.accepted },
        ),
        ControlCommand::InstructionChange => Some(
            ControlReply::InstructionChanged {
                instruction: match done.id {
                    Some(id) => id,
                    None => 0,
                },
                found: done.found,
                accepted: done.accepted,
            },
        ),
        ControlCommand::OrchestrationStart { .. } => Some(
            match done.id {
                Some(run) => ControlReply::Started { run },
                None => ControlReply::LaunchFailed,
            },
        ),
        _ => None,
    }
}

/// Answer a request that was carried out outside.
pub fn finish_request(r: &ControlRequest, done: OutsideResult) -> (reply: Option<ControlReply>)
    ensures
        reply == outside_answer(r.command, done),
{
    match &r.command {
        ControlCommand::ProjectCreate { .. } => Some(
            ControlReply::Mutation {
                resource: Resource::Project,
                id: if done.accepted {
                    done.id
                } else {
                    None
                },
                found: true,
                accepted: done.accepted,
            },
        ),
        ControlCommand::AgentLaunch { .. } => Some(
            ControlReply::Mutation {
                resource: Resource::Agent,
                id: done.id,
                found: done.found,
                accepted: done.id.is_some(),
            },
        ),
        ControlCommand::TaskCreate { .. } => Some(
            ControlReply::Mutation {
                resource: Resource::Task,
                id: done.id,
                found: true,
                accepted: done.id.is_some(),
            },
        ),
        ControlCommand::TaskRetitle { id, title } => Some(
            ControlReply::Mutation {
                resource: Resource::Task,
                id: Some(*id),
                found: done.found,
                accepted: !is_blank(title.as_str()) && done.accepted,
            },
        ),
        ControlCommand::TaskChange { id } => Some(
            ControlReply::Mutation {
                resource: Resource::Task,
                id: Some(*id),
                found: done.found,
                accepted: done.accepted,
            },
        ),
        ControlCommand::WaitingAct { id } => Some(
            ControlReply::Mutation {
                resource: Resource::Waiting,
                id: Some(*id),
                found: done.found,
                accepted: done.accepted,
            },
        ),
        ControlCommand::PaneSend { pane, .. } => Some(
            ControlReply::PaneSent {
                pane: *pane,
                found: done.found,
                accepted: done.found && done.accepted,
            },
        ),
        ControlCommand::InstructionChange => Some(
            ControlReply::InstructionChanged {
                instruction: match done.id {
                    Some(id) => id,
                    None => 0,
                },
                found: done.found,
                accepted: done.accepted,
            },
        ),
        ControlCommand::OrchestrationStart { .. } => Some(
            match done.id {
                Some(run) => ControlReply::Started { run },
                None => ControlReply::LaunchFailed,
            },
        ),
        _ => None,
    }
}

} // verus!
