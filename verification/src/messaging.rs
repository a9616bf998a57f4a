//! Messages, requests and menus as the server carries them out: what one closes is
//! forgotten everywhere, not in the hierarchy alone.
use crate::closing::PaneClosing;
use crate::commands::FileTreeChange;
use crate::control::{
    answer, carried_out, refusal, refuse_request, tab_renamed, to_stop, ControlCommand,
    ControlFacts, ControlOutcome, ControlReply, ControlRequest,
};
use crate::following::Shift;
use crate::hierarchy::{tabs_of, unshown, window_of, Project, Win, WorkspaceState};
use crate::menu::{menu_done, menu_pane, ContextAction, ContextTarget, MenuStep};
use crate::messages::ClientMessage;
use crate::metadata::Note;
use crate::projects::{
    lemma_active_position, lemma_removed_unshown, project_panes, swapped, TabMoveDirection,
};
use crate::reaper::TERM_GRACE_MS;
use crate::server::Server;
use crate::serving::{lemma_ids_below, lemma_updated_tab, shows_no_more};
use crate::session::{direct_may_send, msg_done, MsgFacts, MsgStep, Session};
use crate::sweeping::{forgot_in_turn, without_lost, ForgottenPane};
use crate::tabs::{lemma_move_into, lemma_move_out, lemma_tabs_among};
use crate::types::{PaneId, ProjectId, Rect, Token};
use crate::waits::MAX_WAIT_MS;
use vstd::prelude::*;

verus! {

/// A message that was handled.
#[derive(Debug)]
pub struct HandledMsg {
    pub step: MsgStep,
    /// The Panes that it closed.
    pub gone: Vec<ForgottenPane>,
    /// What it leaves for the file tree, where another Project became active.
    pub follow: FileTreeChange,
}

/// A request that was answered, or is to be carried out outside.
#[derive(Debug)]
pub struct HandledRequest {
    pub outcome: ControlOutcome,
    /// The Panes that it closed.
    pub gone: Vec<ForgottenPane>,
    /// What it leaves for the file tree, where another Project became active.
    pub follow: FileTreeChange,
}

/// An entry of a menu that was carried out.
#[derive(Debug)]
pub struct HandledEntry {
    pub step: MenuStep,
    /// What the Pane that it closed leaves to do.
    pub closing: Option<PaneClosing>,
}

/// A Project that was added.
#[derive(Debug)]
pub struct AddedProject {
    pub id: ProjectId,
    /// What it leaves for the file tree.
    pub follow: FileTreeChange,
}

/// The ids of Projects.
pub open spec fn project_ids(projects: Seq<Project>) -> Seq<ProjectId> {
    Seq::new(projects.len(), |i: int| projects[i].id)
}

/// The Panes that a message closes.
pub open spec fn msg_closes(s: WorkspaceState, msg: ClientMessage, facts: MsgFacts) -> Seq<PaneId> {
    match msg {
        ClientMessage::AgentStop { pane } if facts.has_agent => seq![pane],
        ClientMessage::ProjectRemove { project } if facts.permitted && !facts.worktree
            && s.removable(project) => project_panes(s.windows, project),
        _ => Seq::empty(),
    }
}

/// The Panes that a request closes.
pub open spec fn request_closes(
    s: WorkspaceState,
    command: ControlCommand,
    facts: ControlFacts,
) -> Seq<PaneId> {
    match command {
        ControlCommand::AgentStop { pane } if facts.has_agent => seq![pane],
        ControlCommand::ProjectRemove { project } if !facts.worktree && s.removable(project) =>
        project_panes(s.windows, project),
        _ => Seq::empty(),
    }
}

/// How a message makes another Project active.
pub open spec fn msg_shift(s: WorkspaceState, msg: ClientMessage, facts: MsgFacts) -> Shift {
    match msg {
        ClientMessage::AgentStop { .. } if facts.has_agent => Shift::Closed,
        ClientMessage::ProjectRemove { project } if facts.permitted && !facts.worktree
            && s.removable(project) => Shift::Removed,
        _ => Shift::Activated,
    }
}

/// How a request makes another Project active.
pub open spec fn request_shift(
    s: WorkspaceState,
    command: ControlCommand,
    facts: ControlFacts,
) -> Shift {
    match command {
        ControlCommand::AgentStop { .. } if facts.has_agent => Shift::Closed,
        ControlCommand::ProjectRemove { project } if !facts.worktree && s.removable(project) =>
        Shift::Removed,
        _ => Shift::Activated,
    }
}

proof fn lemma_focus_shows(s: WorkspaceState, pane: PaneId)
    requires
        s.wf(),
    ensures
        shows_no_more(s.windows, s.focus_on(pane).windows, None),
{
    crate::tabs::lemma_window_of_found(s.windows, pane);
    if let Some(w) = window_of(s.windows, pane) {
        lemma_updated_tab(s.windows, w, s.focus_on(pane).windows[w], None);
    }
}

proof fn lemma_move_shows(s: WorkspaceState, direction: TabMoveDirection)
    requires
        s.wf(),
        s.windows.len() <= usize::MAX,
        s.tab_move(direction) is Some,
    ensures
        shows_no_more(s.windows, s.move_tab(direction).windows, None),
{
    lemma_active_position(s);
    lemma_tabs_among(s.windows, s.active_project, s.windows.len());
    let w = s.active_window;
    let tabs = tabs_of(s.windows, s.active_project);
    let to = tabs[s.tab_move(direction).unwrap()] as int;
    assert(0 <= to < s.windows.len());
    let after = swapped(s.windows, w, to);
    assert forall|q: PaneId| unshown(s.windows, q) implies #[trigger] unshown(after, q) by {
        assert forall|i: int| 0 <= i < after.len() implies !(#[trigger] after[i]).shows(q) by {
            assert(!s.windows[i].shows(q));
            assert(!s.windows[w].shows(q));
            assert(!s.windows[to].shows(q));
        }
    }
}

proof fn lemma_close_shows(s: WorkspaceState, pane: PaneId)
    requires
        s.wf(),
        s.windows.len() <= usize::MAX,
    ensures
        shows_no_more(s.windows, s.close(pane).windows, None),
        unshown(s.close(pane).windows, pane),
{
    crate::tabs::lemma_close_tabs(s, pane);
    assert forall|q: PaneId| unshown(s.windows, q) implies #[trigger] unshown(
        s.close(pane).windows,
        q,
    ) by {
        assert(unshown(s.windows_without(pane), q));
    }
}

proof fn lemma_single_pushed(windows: Seq<Win>, project: ProjectId, pane: PaneId)
    ensures
        shows_no_more(windows, windows.push(Win::single(project, pane, None)), Some(pane)),
{
    crate::hierarchy::lemma_single(project, pane, None);
    let after = windows.push(Win::single(project, pane, None));
    assert forall|q: PaneId| unshown(windows, q) && q != pane implies #[trigger] unshown(
        after,
        q,
    ) by {
        assert forall|i: int| 0 <= i < after.len() implies !(#[trigger] after[i]).shows(q) by {
            if i < windows.len() {
                assert(!windows[i].shows(q));
            }
        }
    }
}

/// A message shows no Pane that was not shown, and none that it closes.
proof fn lemma_msg_shows(
    a: Session,
    b: Session,
    token: Token,
    msg: ClientMessage,
    facts: MsgFacts,
    step: MsgStep,
)
    requires
        a.wf(),
        a.workspace@.windows.len() <= usize::MAX,
        msg_done(a, b, token, msg, facts, step),
    ensures
        shows_no_more(a.workspace@.windows, b.workspace@.windows, None),
        forall|k: int|
            0 <= k < msg_closes(a.workspace@, msg, facts).len() ==> unshown(
                b.workspace@.windows,
                #[trigger] msg_closes(a.workspace@, msg, facts)[k],
            ),
{
    let s = a.workspace@;
    match msg {
        ClientMessage::ProjectRemove { project } => {
            if s.removable(project) {
                lemma_removed_unshown(s, project);
            }
        },
        ClientMessage::PaneFocus { pane } | ClientMessage::AgentFocus { pane } => {
            lemma_focus_shows(s, pane);
        },
        ClientMessage::HierarchyFocus { project, tab, ordinal } => {
            if let Some(pane) = s.ordinal_target(project, tab, ordinal) {
                lemma_focus_shows(s, pane);
            }
        },
        ClientMessage::TabMove { direction } => {
            if s.tab_move(direction) is Some {
                lemma_move_shows(s, direction);
            }
        },
        ClientMessage::RenameWindow { name } => {
            lemma_renamed_shows(s, b.workspace@, name@);
        },
        ClientMessage::AgentStop { pane } => {
            lemma_close_shows(s, pane);
        },
        _ => {
            assert(b.workspace@.windows == s.windows);
        },
    }
}

proof fn lemma_renamed_shows(s: WorkspaceState, t: WorkspaceState, name: Seq<char>)
    requires
        s.wf(),
        tab_renamed(s, t, name),
    ensures
        shows_no_more(s.windows, t.windows, None),
{
    lemma_updated_tab(s.windows, s.active_window, Win { name: t.tab().name, ..s.tab() }, None);
}

/// A request shows no Pane that was not shown, but for the one that was opened
/// for it, and none that it closes.
proof fn lemma_request_shows(
    s: WorkspaceState,
    t: WorkspaceState,
    command: ControlCommand,
    facts: ControlFacts,
)
    requires
        s.wf(),
        s.windows.len() <= usize::MAX,
        carried_out(s, t, command, facts),
    ensures
        shows_no_more(s.windows, t.windows, facts.spawned),
        forall|k: int|
            0 <= k < request_closes(s, command, facts).len() ==> unshown(
                t.windows,
                #[trigger] request_closes(s, command, facts)[k],
            ),
{
    match command {
        ControlCommand::ProjectRemove { project } => {
            if s.removable(project) {
                lemma_removed_unshown(s, project);
            }
        },
        ControlCommand::TabCreate { project } => {
            assert(s.switch_to(project).windows == s.windows);
            if let Some(pane) = facts.spawned {
                lemma_single_pushed(s.windows, s.switch_to(project).active_project, pane);
            }
        },
        ControlCommand::TabRename { project, tab, name } => {
            let focused = s.hierarchy_focused(project, tab, None);
            if let Some(pane) = s.ordinal_target(project, tab, None) {
                lemma_focus_shows(s, pane);
                crate::focus::lemma_focus_on(s, pane);
                if crate::text::trimmed(name@).len() > 0 {
                    lemma_renamed_shows(focused, t, name@);
                }
            }
        },
        ControlCommand::TabMove { project, tab, direction } => {
            let focused = s.hierarchy_focused(project, tab, None);
            if let Some(pane) = s.ordinal_target(project, tab, None) {
                lemma_focus_shows(s, pane);
                crate::focus::lemma_focus_on(s, pane);
                if focused.tab_move(direction) is Some {
                    lemma_move_shows(focused, direction);
                }
            }
        },
        ControlCommand::HierarchyFocus { project, tab, ordinal } => {
            if let Some(pane) = s.ordinal_target(project, tab, ordinal) {
                lemma_focus_shows(s, pane);
            }
        },
        ControlCommand::AgentFocus { pane } => {
            lemma_focus_shows(s, pane);
        },
        ControlCommand::AgentStop { pane } => {
            lemma_close_shows(s, pane);
        },
        _ => {
            assert(t.windows == s.windows);
        },
    }
}

/// No Project of a list is missing from it.
proof fn lemma_none_lost(notes: Map<(u64, Seq<char>), Note>, projects: Seq<Project>, n: nat)
    requires
        n <= projects.len(),
    ensures
        without_lost(notes, project_ids(projects), projects, n) == notes,
    decreases n,
{
    if n > 0 {
        lemma_none_lost(notes, projects, (n - 1) as nat);
        crate::hierarchy::lemma_project_at_found(projects, projects[n - 1].id);
    }
}

fn copy_panes(list: &Vec<PaneId>) -> (copy: Vec<PaneId>)
    ensures
        copy@ == list@,
{
    let mut copy: Vec<PaneId> = Vec::new();
    let mut i: usize = 0;
    while i < list.len()
        invariant
            i <= list@.len(),
            copy@ == list@.take(i as int),
        decreases list@.len() - i,
    {
        copy.push(list[i]);
        i += 1;
        assert(copy@ =~= list@.take(i as int));
    }
    assert(list@.take(i as int) =~= list@);
    copy
}

/// No entry of a menu shows a Pane that was not shown.
proof fn lemma_entry_shows(
    s: WorkspaceState,
    target: ContextTarget,
    action: ContextAction,
    area: Rect,
)
    requires
        s.wf(),
        s.windows.len() <= usize::MAX,
    ensures
        menu_pane(target) matches Some(pane) ==> {
            &&& shows_no_more(s.windows, s.focus_here(pane).windows, None)
            &&& s.can_move_out(pane) ==> shows_no_more(s.windows, s.move_out(pane).windows, None)
            &&& action matches ContextAction::MoveToTab(to) ==> s.can_move(pane, to as int)
                ==> shows_no_more(s.windows, s.move_into(pane, to as int, area).windows, None)
        },
{
    if let Some(pane) = menu_pane(target) {
        lemma_updated_tab(s.windows, s.active_window, Win { active: pane, ..s.tab() }, None);
        if s.can_move_out(pane) {
            lemma_move_out(s, pane);
        }
        if let ContextAction::MoveToTab(to) = action {
            if s.can_move(pane, to as int) {
                lemma_move_into(s, pane, to as int, area);
            }
        }
    }
}

fn ids_of(projects: &Vec<Project>) -> (ids: Vec<ProjectId>)
    ensures
        ids@ == project_ids(projects@),
{
    let mut ids: Vec<ProjectId> = Vec::new();
    let mut i: usize = 0;
    while i < projects.len()
        invariant
            i <= projects@.len(),
            ids@ == project_ids(projects@).take(i as int),
        decreases projects@.len() - i,
    {
        ids.push(projects[i].id);
        i += 1;
        assert(ids@ =~= project_ids(projects@).take(i as int));
    }
    assert(project_ids(projects@).take(i as int) =~= project_ids(projects@));
    ids
}

impl Server {
    /// `after` is the server once the hierarchy changed to the session of
    /// `after`, and these Panes and the Projects that are gone were forgotten.
    pub open spec fn followed_up(
        self,
        after: Server,
        closed: Seq<PaneId>,
        now: u64,
        gone: Seq<ForgottenPane>,
    ) -> bool {
        &&& (Server {
            session: after.session,
            project_notes: after.project_notes,
            ..self
        }).swept(after, closed, now, gone)
        &&& after.project_notes@ == without_lost(
            self.project_notes@,
            project_ids(self.session.workspace@.projects),
            after.session.workspace@.projects,
            self.session.workspace@.projects.len(),
        )
    }

    fn follow_up(&mut self, before: &Vec<ProjectId>, closed: &Vec<PaneId>, now: u64) -> (gone: Vec<
        ForgottenPane,
    >)
        requires
            old(self).runtime.wf(),
            old(self).sources.wf(),
            old(self).instructions.wf(),
            old(self).pane_notes.wf(),
            old(self).project_notes.wf(),
            forall|k: int|
                0 <= k < closed@.len() ==> unshown(
                    old(self).session.workspace@.windows,
                    #[trigger] closed@[k],
                ),
            now <= u64::MAX - TERM_GRACE_MS,
        ensures
            final(self).runtime.wf(),
            final(self).sources.wf(),
            final(self).instructions.wf(),
            final(self).pane_notes.wf(),
            final(self).project_notes.wf(),
            final(self).session == old(self).session,
            final(self).next_pane_id == old(self).next_pane_id,
            (Server { project_notes: final(self).project_notes, ..*old(self) }).swept(
                *final(self),
                closed@,
                now,
                gone@,
            ),
            final(self).project_notes@ == without_lost(
                old(self).project_notes@,
                before@,
                old(self).session.workspace@.projects,
                before@.len(),
            ),
    {
        self.forget_lost_projects(before);
        self.forget_panes(closed, now)
    }

    /// Open a Project with one Tab, and show it.
    pub fn add_project(&mut self, name: String, root: String, pane: PaneId) -> (added: AddedProject)
        requires
            old(self).wf(),
            unshown(old(self).session.workspace@.windows, pane),
            pane.0 < old(self).next_pane_id,
            old(self).session.workspace@.next_project_id < u64::MAX,
        ensures
            final(self).wf(),
            added.id.0 == old(self).session.workspace@.next_project_id,
            added.follow == final(self).session.follows(
                old(self).session.workspace@.active_project,
                Shift::Activated,
            ),
            final(self).session.workspace@ == old(self).session.workspace@.add_project(
                name,
                root,
                pane,
            ),
            final(self).session.workspace@.active_project == added.id,
            *final(self) == (Server {
                session: Session {
                    workspace: final(self).session.workspace,
                    ..old(self).session
                },
                ..*old(self)
            }),
    {
        let ghost s = self.session.workspace@;
        let before = self.session.workspace.active_project;
        let id = self.session.workspace.add_project(name, root, pane);
        proof {
            let t = self.session.workspace@;
            lemma_single_pushed(s.windows, id, pane);
            assert(t.windows == s.windows.push(Win::single(id, pane, None)));
            lemma_ids_below(s.windows, t.windows, Some(pane), self.next_pane_id as int);
        }
        let follow = self.session.follow_project(before, Shift::Activated);
        AddedProject { id, follow }
    }

    /// Handle a message of a client. What it closes is closed everywhere: the
    /// server knows nothing of a closed Pane, nor of the notes of a Project that
    /// is gone.
    pub fn handle_msg(&mut self, token: Token, msg: ClientMessage, facts: &MsgFacts) -> (out:
        HandledMsg)
        requires
            old(self).wf(),
            facts.now <= u64::MAX - MAX_WAIT_MS,
        ensures
            if old(self).session.is_direct(token) && !direct_may_send(msg) {
                *final(self) == *old(self) && out.step is Ignored && out.gone@.len() == 0
                    && out.follow is Nothing
            } else {
                &&& msg_done(old(self).session, final(self).session, token, msg, *facts, out.step)
                &&& old(self).followed_up(
                    *final(self),
                    msg_closes(old(self).session.workspace@, msg, *facts),
                    facts.now,
                    out.gone@,
                )
                &&& out.follow == final(self).session.follows(
                    old(self).session.workspace@.active_project,
                    msg_shift(old(self).session.workspace@, msg, *facts),
                )
            },
            final(self).session.workspace@.windows.len() > 0 ==> final(self).wf(),
    {
        let ghost a = self.session;
        let ghost s = self.session.workspace@;
        assert(self.session.workspace.windows.len() <= usize::MAX);
        let before = ids_of(&self.session.workspace.projects);
        let was = self.session.workspace.active_project;
        let stopped: Option<PaneId> = match &msg {
            ClientMessage::AgentStop { pane } => if facts.has_agent {
                Some(*pane)
            } else {
                None
            },
            _ => None,
        };
        let step = self.session.handle_msg(token, msg, facts);
        let ghost silent = a.is_direct(token) && !direct_may_send(msg);
        proof {
            if !silent {
                lemma_msg_shows(a, self.session, token, msg, *facts, step);
                lemma_ids_below(
                    s.windows,
                    self.session.workspace@.windows,
                    None,
                    self.next_pane_id as int,
                );
            }
        }
        let mut closed: Vec<PaneId> = Vec::new();
        let mut shift = Shift::Activated;
        match &step {
            MsgStep::Ignored => {
                let gone: Vec<ForgottenPane> = Vec::new();
                proof {
                    assert(self.session.workspace@.projects == s.projects);
                    lemma_none_lost(self.project_notes@, s.projects, s.projects.len());
                    let states: Seq<Server> = seq![*self];
                    assert(forgot_in_turn(states, facts.now, gone@));
                    assert(states[0] == *self && states.last() == *self);
                }
                let follow = self.session.follow_project(was, Shift::Activated);
                return HandledMsg { step, gone, follow };
            },
            MsgStep::PaneClosed(_) => {
                if let Some(pane) = stopped {
                    shift = Shift::Closed;
                    closed.push(pane);
                }
            },
            MsgStep::ProjectRemoved(Some(removed)) => {
                shift = Shift::Removed;
                closed = copy_panes(&removed.panes);
            },
            _ => {},
        }
        assert(closed@ =~= msg_closes(s, msg, *facts));
        let gone = self.follow_up(&before, &closed, facts.now);
        let follow = self.session.follow_project(was, shift);
        HandledMsg { step, gone, follow }
    }

    /// Answer a request of the control interface. What it closes is closed
    /// everywhere, as for a message.
    pub fn on_control_request(&mut self, r: &ControlRequest, facts: &ControlFacts, now: u64) -> (out:
        HandledRequest)
        requires
            old(self).wf(),
            facts.spawned matches Some(pane) ==> unshown(
                old(self).session.workspace@.windows,
                pane,
            ) && pane.0 < old(self).next_pane_id,
            now <= u64::MAX - TERM_GRACE_MS,
        ensures
            ({
                let s = old(self).session.workspace@;
                let t = final(self).session.workspace@;
                let outcome = out.outcome;
                match refusal(old(self).name@, *r, *facts) {
                    Some(error) => {
                        &&& outcome.reply == Some(ControlReply::Refused(error))
                        &&& *final(self) == *old(self)
                        &&& outcome.stop@.len() == 0
                        &&& outcome.closed is None
                        &&& outcome.removed is None
                        &&& out.gone@.len() == 0
                        &&& out.follow is Nothing
                    },
                    None => {
                        &&& carried_out(s, t, r.command, *facts)
                        &&& outcome.reply == answer(
                            s,
                            t,
                            r.command,
                            *facts,
                            old(self).runtime.runs,
                        )
                        &&& outcome.stop@ == to_stop(s, r.command, *facts)
                        &&& outcome.closed == match r.command {
                            ControlCommand::AgentStop { pane } if facts.has_agent => Some(
                                s.closing(pane),
                            ),
                            _ => None,
                        }
                        &&& match r.command {
                            ControlCommand::ProjectRemove { project } => {
                                &&& outcome.removed is Some <==> !facts.worktree && s.removable(
                                    project,
                                )
                                &&& outcome.removed matches Some(g) ==> g.stopped == (
                                t.windows.len() == 0) && g.panes@ == project_panes(
                                    s.windows,
                                    project,
                                )
                            },
                            _ => outcome.removed is None,
                        }
                        &&& old(self).followed_up(
                            *final(self),
                            request_closes(s, r.command, *facts),
                            now,
                            out.gone@,
                        )
                        &&& out.follow == final(self).session.follows(
                            s.active_project,
                            request_shift(s, r.command, *facts),
                        )
                        &&& final(self).session == (Session {
                            workspace: final(self).session.workspace,
                            ..old(self).session
                        })
                    },
                }
            }),
            final(self).session.workspace@.windows.len() > 0 ==> final(self).wf(),
    {
        let ghost s = self.session.workspace@;
        assert(self.session.workspace.windows.len() <= usize::MAX);
        if let Some(error) = refuse_request(self.name.as_str(), r, facts) {
            let outcome = ControlOutcome {
                reply: Some(ControlReply::Refused(error)),
                stop: Vec::new(),
                closed: None,
                removed: None,
            };
            let follow = FileTreeChange::Nothing;
            return HandledRequest { outcome, gone: Vec::new(), follow };
        }
        let before = ids_of(&self.session.workspace.projects);
        let was = self.session.workspace.active_project;
        let outcome = self.session.workspace.on_control_request(
            self.name.as_str(),
            r,
            facts,
            &self.runtime.runs,
        );
        proof {
            let t = self.session.workspace@;
            lemma_request_shows(s, t, r.command, *facts);
            lemma_ids_below(s.windows, t.windows, facts.spawned, self.next_pane_id as int);
        }
        let mut closed: Vec<PaneId> = Vec::new();
        let mut shift = Shift::Activated;
        match &r.command {
            ControlCommand::AgentStop { pane } => {
                if facts.has_agent {
                    shift = Shift::Closed;
                    closed.push(*pane);
                }
            },
            _ => {
                if let Some(removed) = &outcome.removed {
                    shift = Shift::Removed;
                    closed = copy_panes(&removed.panes);
                }
            },
        }
        assert(closed@ =~= request_closes(s, r.command, *facts));
        let gone = self.follow_up(&before, &closed, now);
        let follow = self.session.follow_project(was, shift);
        HandledRequest { outcome, gone, follow }
    }

    /// Carry out an entry of a menu. The Pane that it closes is closed
    /// everywhere.
    pub fn run_context_action(
        &mut self,
        target: ContextTarget,
        action: ContextAction,
        area: Rect,
        parent: String,
        now: u64,
    ) -> (out: HandledEntry)
        requires
            old(self).wf(),
            area.fits(),
            now <= u64::MAX - TERM_GRACE_MS,
        ensures
            menu_done(
                old(self).session.workspace@,
                final(self).session.workspace@,
                target,
                action,
                area,
                parent,
                out.step,
            ),
            match (action, menu_pane(target)) {
                (ContextAction::ClosePane, Some(pane)) => {
                    &&& out.closing matches Some(closing)
                    &&& old(self).closed(*final(self), pane, now, closing)
                    &&& final(self).knows_nothing_of(pane)
                },
                _ => {
                    &&& out.closing is None
                    &&& *final(self) == (Server {
                        session: Session {
                            workspace: final(self).session.workspace,
                            ..old(self).session
                        },
                        ..*old(self)
                    })
                },
            },
            final(self).session.workspace@.windows.len() > 0 ==> final(self).wf(),
    {
        let ghost s = self.session.workspace@;
        assert(self.session.workspace.windows.len() <= usize::MAX);
        if action == ContextAction::ClosePane {
            if let ContextTarget::Pane(pane) = &target {
                let closing = self.close_pane(*pane, now);
                let done = closing.done;
                return HandledEntry { step: MenuStep::Closed(done), closing: Some(closing) };
            }
        }
        proof {
            lemma_entry_shows(s, target, action, area);
        }
        let step = self.session.workspace.run_context_action(target, action, area, parent);
        proof {
            let t = self.session.workspace@;
            assert(shows_no_more(s.windows, t.windows, None));
            lemma_ids_below(s.windows, t.windows, None, self.next_pane_id as int);
        }
        HandledEntry { step, closing: None }
    }
}

} // verus!
