//! What the server owes to its clients, its agents and its runs: each law speaks
//! of every outcome that the operation may have.
use crate::agent_laws::{lemma_named_report_binds, lemma_reported_end_unbinds};
use crate::agent_launch::LaunchTarget;
use crate::broadcast::{DamageStep, PaneOutput, Shown};
use crate::canvas::Canvas;
use crate::commands::{
    lemma_split_stands_along_its_axis, Command, CommandInputs, SplitAxis,
};
use crate::control::{refusal, ControlFacts, ControlOutcome, ControlReply, ControlRequest};
use crate::detection::AgentPane;
use crate::files::{enter_copy_mode, FileCommand, FileSync, FileTree};
use crate::guardrail::{
    launch_facts, selected, selector_text, GuardDecision, GuardLimits, LaunchFacts, LaunchRequest,
};
use crate::hierarchy::{project_at, tabs_of, unshown, window_of, Workspace};
use crate::layout::{rects, LayoutNode};
use crate::listings::{plan_project, ProjectPlan, ProjectRefusal};
use crate::lists::lemma_filter_holds;
use crate::messages::ClientMessage;
use crate::mouse::{
    drag_selection, finish_selection, DragStep, FinishStep, MouseKind, MouseSel,
};
use crate::notices::{ChangedAgent, Chime, Notice};
use crate::orchestration::{
    Action, ActiveRun, EngineState, OrchestrationKind, Orchestrations, PendingSubmission,
    RoleProvider, RunRole,
};
use crate::pane_events::{AgentEvent, EventEffect};
use crate::pointer::{MouseStep, PointerView};
use crate::projects::{TabMoveDirection, TabMoved};
use crate::reaper::RetiringPty;
use crate::run_actions::{plan_prompt, FinishedRun, PromptPlan};
use crate::run_flow::{not_among, RunTimer};
use crate::run_launch::new_run;
use crate::run_timers::{DueEnd, EngineEvent};
use crate::server::{Renamed, Server, Shutdown};
use crate::serving::ServerCommand;
use crate::session::{direct_may_send, msg_done, MsgFacts, MsgStep, Session, Toast};
use crate::settings::NotificationDelivery;
use crate::sources::Sources;
use crate::text::trimmed;
use crate::types::{PaneId, ProjectId, Rect, Token};
use vstd::prelude::*;

verus! {

/// A client that came for one Pane is held to what such a client may send.
pub proof fn lemma_client_of_one_pane_is_held_to_it(
    session: &mut Session,
    token: Token,
    msg: ClientMessage,
    facts: MsgFacts,
    step: MsgStep,
)
    requires
        call_ensures(Session::handle_msg, (session, token, msg, &facts), step),
    ensures
        old(session).client(token) is Some && old(session).client(token)->0.direct_only
            && !direct_may_send(msg) ==> step is Ignored && *final(session) == *old(session),
        old(session).client(token) is None ==> msg_done(
            *old(session),
            *final(session),
            token,
            msg,
            facts,
            step,
        ),
        old(session).client(token) is None && msg is Attach ==> step is Sized
            && final(session).workspace == old(session).workspace,
{
}

/// A launch that was refused is told in the focused Pane, for eight seconds.
pub proof fn lemma_refused_launch_is_told(session: Session, error: &str, now: u64, toast: Toast)
    requires
        call_ensures(Session::refused_launch, (&session, error, now), toast),
    ensures
        toast.pane == session.workspace@.tab().active,
        toast.expires == now + 8_000,
        toast.title@ == "Automation launch refused"@,
        error@.len() <= 16_384 ==> toast.body@ == error@,
{
}

/// A Workspace takes another name where that is valid and free, and everyone who
/// shows it is told.
pub proof fn lemma_workspace_takes_a_name(
    server: &mut Server,
    name: String,
    valid: bool,
    free: bool,
    renamed: Option<Renamed>,
)
    requires
        call_ensures(Server::rename_session, (server, name, valid, free), renamed),
    ensures
        renamed is Some <==> valid && free && name@ != old(server).name@,
        renamed is Some ==> final(server).name == name && renamed->0.old == old(server).name,
        renamed is Some ==> renamed->0.catalog == old(server).catalog.enabled,
        renamed is None ==> *final(server) == *old(server),
        final(server).session == old(server).session && final(server).runtime
            == old(server).runtime,
{
}

/// At the end every client is told, and nothing is written any more.
pub proof fn lemma_everyone_is_told_of_the_end(
    server: &mut Server,
    line: Option<String>,
    end: Shutdown,
    i: int,
)
    requires
        call_ensures(Server::shutdown, (server, line), end),
    ensures
        !final(server).running && !final(server).checkpoint.writes_enabled,
        end.tell@.len() == old(server).session.clients.list@.len(),
        0 <= i < end.tell@.len() ==> end.tell@[i] == old(server).session.clients.list@[i].token,
        end.line is Some ==> end.line == line && old(server).catalog.enabled,
{
}

/// A Pane gets a number that no Pane had.
pub proof fn lemma_pane_gets_a_number(server: &mut Server, id: PaneId)
    requires
        call_ensures(Server::draw_pane_id, (server,), id),
        old(server).next_pane_id < u64::MAX,
    ensures
        id == PaneId(old(server).next_pane_id),
        final(server).next_pane_id == old(server).next_pane_id + 1,
        final(server).session == old(server).session,
{
}

/// A new Pane starts in the folder of the active Project.
pub proof fn lemma_pane_starts_in_its_project(server: Server, root: Option<String>, p: int)
    requires
        call_ensures(Server::spawn_directory, (&server,), root),
    ensures
        project_at(
            server.session.workspace@.projects,
            server.session.workspace@.active_project,
        ) == Some(p) ==> root == Some(server.session.workspace@.projects[p].root),
{
}

/// A Pane is read under a token of its own.
pub proof fn lemma_pane_is_read_under_its_token(sources: &mut Sources, pane: PaneId, token: Token)
    requires
        call_ensures(Sources::add_pane, (sources, pane), token),
    ensures
        token == Token(old(sources).next_token),
        final(sources).next_token == old(sources).next_token + 1,
        final(sources).panes@.len() == old(sources).panes@.len() + 1,
        final(sources).panes@.last().pane == pane && final(sources).panes@.last().token == token,
        final(sources).watches == old(sources).watches,
{
}

/// A Pane that is launched for an agent belongs to it, from its start on.
pub proof fn lemma_launched_agent_is_bound(
    pane: &mut AgentPane,
    id: &str,
    front: Option<i32>,
    now: u64,
    stamp: u64,
)
    requires
        call_ensures(AgentPane::bind_agent, (pane, id, front, now, stamp), ()),
    ensures
        final(pane).agent is Some && final(pane).agent->0.id@ == id@,
        final(pane).agent->0.status is Starting && final(pane).agent->0.started_at == now,
        final(pane).agent->0.foreground_pid == front && final(pane).agent->0.authority is Process,
        final(pane).agent->0.session_id is None && final(pane).agent->0.resume_command is None,
{
}

/// An agent whose process ended is gone from its Pane, which remembers that it
/// exited.
pub proof fn lemma_exited_agent_is_gone(pane: &mut AgentPane, pid: i32, stamp: u64, unbound: bool)
    requires
        call_ensures(AgentPane::on_process_exit, (pane, pid, stamp), unbound),
    ensures
        unbound <==> old(pane).agent is Some,
        final(pane).agent is None,
        unbound ==> final(pane).candidate is None && final(pane).last_detection is Some,
        unbound ==> final(pane).last_detection->0.agent == old(pane).agent->0.id
            && final(pane).last_detection->0.status is Exited,
        !unbound ==> *final(pane) == *old(pane),
{
}

/// A drag selects from the press while its Pane is shown; a release ends it, with
/// the text copied or kept.
pub proof fn lemma_selection_is_dragged(
    sel: &mut Option<MouseSel>,
    shown: bool,
    copying: bool,
    step: Option<DragStep>,
)
    requires
        call_ensures(drag_selection, (sel, shown, copying), step),
    ensures
        *old(sel) is Some && shown ==> *final(sel) is Some && (*final(sel))->0.selecting
            && (*final(sel))->0.pane == (*old(sel))->0.pane && (*final(sel))->0.press_x
            == (*old(sel))->0.press_x,
        *old(sel) is None || !shown ==> *final(sel) is None,
{
}

/// A release ends the selection: a dragged one is copied or kept, and a press that
/// a program is owed is handed on.
pub proof fn lemma_selection_is_finished(
    sel: &mut Option<MouseSel>,
    done: bool,
    copy: bool,
    step: FinishStep,
)
    requires
        call_ensures(finish_selection, (sel, done, copy), step),
    ensures
        *final(sel) is None,
        *old(sel) is None ==> step is NotOurs,
        *old(sel) is Some && (*old(sel))->0.selecting && copy ==> step == FinishStep::Yank(
            (*old(sel))->0.pane,
        ),
        *old(sel) is Some && (*old(sel))->0.selecting && !copy ==> step == FinishStep::Keep(
            (*old(sel))->0.pane,
        ),
        *old(sel) is Some && !(*old(sel))->0.selecting && (*old(sel))->0.deferred_press
            ==> step is DeliverClick,
{
}

/// A moved Tab trades places within its Project and stays the one shown.
pub proof fn lemma_active_tab_is_moved(
    workspace: &mut Workspace,
    direction: TabMoveDirection,
    moved: Option<TabMoved>,
)
    requires
        call_ensures(Workspace::move_active_tab, (workspace, direction), moved),
        old(workspace)@.wf(),
        old(workspace)@.windows.len() <= usize::MAX,
    ensures
        moved is Some
            <==> tabs_of(old(workspace)@.windows, old(workspace)@.active_project).len() >= 2,
        moved is None ==> final(workspace)@ == old(workspace)@,
        moved is Some ==> moved->0.project == old(workspace)@.active_project,
        final(workspace)@.windows[final(workspace)@.active_window]
            == old(workspace)@.windows[old(workspace)@.active_window],
{
}

/// A Pane moves out of a Tab that has another, and stays shown with all others.
pub proof fn lemma_pane_moves_out(
    workspace: &mut Workspace,
    pane: PaneId,
    moved: bool,
    w: int,
    q: PaneId,
)
    requires
        call_ensures(Workspace::move_pane_to_new_window, (workspace, pane), moved),
        old(workspace)@.wf(),
        old(workspace)@.windows.len() <= usize::MAX,
    ensures
        window_of(old(workspace)@.windows, pane) == Some(w) ==> (moved
            <==> old(workspace)@.windows[w].layout.panes().len() >= 2),
        window_of(old(workspace)@.windows, pane) is None ==> !moved,
        !moved ==> final(workspace)@ == old(workspace)@,
        unshown(final(workspace)@.windows, q) <==> unshown(old(workspace)@.windows, q),
{
}

/// Within its Tab the focus goes to a Pane that is shown there, and nowhere else.
pub proof fn lemma_focus_within_reach(workspace: &mut Workspace, pane: PaneId, found: bool)
    requires
        call_ensures(Workspace::focus_context_pane, (workspace, pane), found),
        old(workspace)@.wf(),
        old(workspace)@.windows.len() <= usize::MAX,
    ensures
        found <==> old(workspace)@.tab().layout.panes().contains(pane),
        found ==> final(workspace)@.tab().active == pane,
        !found ==> final(workspace)@ == old(workspace)@,
        final(workspace)@.active_window == old(workspace)@.active_window,
{
}

/// A layout holds the Panes it lists, the first of them first.
pub proof fn lemma_layout_holds_its_panes(
    node: LayoutNode,
    pane: PaneId,
    found: bool,
    first: PaneId,
)
    requires
        call_ensures(LayoutNode::contains_pane, (&node, pane), found),
        call_ensures(LayoutNode::first_pane, (&node,), first),
    ensures
        found <==> exists|i: int| 0 <= i < node.panes().len() && node.panes()[i] == pane,
        first == node.panes()[0],
{
}

/// Copy mode is entered in a Pane that is there, shown, and not in it yet.
pub proof fn lemma_copy_mode_is_entered(shown: bool, exists_pane: bool, copying: bool, enter: bool)
    requires
        call_ensures(enter_copy_mode, (shown, exists_pane, copying), enter),
    ensures
        enter ==> shown && exists_pane && !copying,
        shown && exists_pane && !copying ==> enter,
{
}

/// The file tree shows the active Project; another one starts it afresh.
pub proof fn lemma_tree_shows_the_active_project(
    tree: &mut FileTree,
    id: ProjectId,
    root: String,
    focused: bool,
    focus: bool,
    out: (FileSync, Option<(FileCommand, FileCommand)>),
)
    requires
        call_ensures(FileTree::sync_file_manager, (tree, Some((id, root)), focused, focus), out),
    ensures
        final(tree).project == id && final(tree).root@ == root@,
        out.0 is Refresh,
        out.0->reset <==> old(tree).project != id || old(tree).root@ != root@,
        focus ==> out.0->focused,
        out.0->reset && !focus ==> !out.0->focused,
{
}

/// A Project needs a name and a folder.
pub proof fn lemma_project_needs_a_name_and_a_folder(
    name: &str,
    root: &str,
    home: Option<&str>,
    plan: Result<ProjectPlan, ProjectRefusal>,
)
    requires
        call_ensures(plan_project, (name, root, home), plan),
    ensures
        trimmed(name@).len() == 0 || trimmed(root@).len() == 0 ==> plan is Err
            && plan->Err_0 is Incomplete,
        plan is Ok ==> plan->Ok_0.name@ == trimmed(name@),
        plan is Err && trimmed(name@).len() > 0 && trimmed(root@).len() > 0
            ==> plan->Err_0 is NoHome,
{
}

/// A run that ends is waited for by no check, and is recorded as it ended.
pub proof fn lemma_run_is_finished(
    runs: &mut Orchestrations,
    run: ActiveRun,
    done: bool,
    outcome: &str,
    ended: FinishedRun,
    s: PendingSubmission,
)
    requires
        call_ensures(Orchestrations::finish_run, (runs, &run, done, outcome), ended),
    ensures
        done ==> ended.end is Completed,
        !done && outcome@ == "stopped by human"@ ==> ended.end is Canceled,
        !done && outcome@ != "stopped by human"@ ==> ended.end is Failed,
        outcome@.len() <= 16_384 ==> ended.recorded@ == outcome@,
        s.task_id == run.task_id ==> !final(runs).submissions@.contains(s),
        s.task_id != run.task_id ==> (final(runs).submissions@.contains(s)
            <==> old(runs).submissions@.contains(s)),
        final(runs).workflows == old(runs).workflows && final(runs).relays == old(runs).relays,
{
    lemma_filter_holds(old(runs).submissions@, not_among(seq![run.task_id]), s);
    assert(seq![run.task_id].contains(s.task_id) <==> s.task_id == run.task_id) by {
        if s.task_id == run.task_id {
            assert(seq![run.task_id][0] == s.task_id);
        }
    }
}

/// A role is prompted in its own Pane; its first prompt goes with the line that
/// launches its agent.
pub proof fn lemma_role_is_prompted_in_its_pane(
    run: ActiveRun,
    role: usize,
    prompt: &str,
    line: &str,
    bracketed: bool,
    plan: PromptPlan,
)
    requires
        call_ensures(plan_prompt, (&run, role, prompt, line, bracketed), plan),
    ensures
        plan.pane == run.role_panes@[role as int],
        plan.provider == run.role_providers@[role as int].id,
        plan.first <==> !run.started@[role as int],
        plan.first ==> plan.bytes@.len() > 0 && plan.bytes@.last() == 10,
{
}

/// A guard that allows the run lets it go on; one that does not stops it with the
/// reason.
pub proof fn lemma_guard_decides_on_the_time(
    runs: &mut Orchestrations,
    run: ActiveRun,
    decision: GuardDecision,
    now: u64,
    clock: u64,
    stopped: Option<(ActiveRun, EngineEvent)>,
)
    requires
        call_ensures(Orchestrations::settle_elapsed, (runs, run, decision, now, clock), stopped),
    ensures
        stopped is None <==> decision is Allow,
        decision is Allow ==> final(runs).runs(run.kind).last().task_id == run.task_id
            && !final(runs).runs(run.kind).last().elapsed_guard_triggered,
        !(decision is Allow) ==> *final(runs) == *old(runs),
        decision is Deny ==> stopped == Some(
            (run, EngineEvent::Guardrail { reason: decision->Deny_0 }),
        ),
        decision is Ask ==> stopped
            == Some((run, EngineEvent::Guardrail { reason: decision->Ask_0 })),
{
}

/// A stepped run is kept while it is not over, and written down unless it fell
/// idle and ended.
pub proof fn lemma_stepped_run_is_kept(
    runs: &mut Orchestrations,
    run: ActiveRun,
    timer: RunTimer,
    end: DueEnd,
)
    requires
        call_ensures(Orchestrations::finish_due, (runs, run, timer), end),
    ensures
        ({
            let over = run.state.phase is Done || run.state.phase is Aborted;
            &&& end.kept <==> timer is Elapsed || !over
            &&& end.record <==> !(timer is Idle) || !over
        }),
        end.kept ==> final(runs).runs(run.kind).last() == run,
        !end.kept ==> *final(runs) == *old(runs),
{
}

/// A turn that opens gets a fresh token, which no other turn has; other decisions
/// get none.
pub proof fn lemma_turn_gets_a_fresh_token(
    runs: &mut Orchestrations,
    state: &mut EngineState,
    action: Action,
    scoped: Option<Action>,
)
    requires
        call_ensures(Orchestrations::scope_activation_token, (runs, state, action), scoped),
    ensures
        !(action is Inject) ==> scoped == Some(action) && *final(state) == *old(state)
            && *final(runs)
            == *old(runs),
        action is Inject && scoped is Some ==> scoped->0 is Inject && scoped->0->role
            == action->role
            && scoped->0->token == final(state).token && final(state).token != 0
            && !old(runs).occupied(final(state).token),
        action is Inject && scoped is None ==> *final(state) == *old(state),
        final(state).phase == old(state).phase && final(state).cur == old(state).cur,
        final(runs).workflows == old(runs).workflows && final(runs).relays == old(runs).relays,
{
}

/// A launch is for the Project that was named, with its folder, and within the
/// limits that are set.
pub proof fn lemma_launch_is_prepared(
    workspace: Workspace,
    selector: Option<&str>,
    roles: usize,
    limits: GuardLimits,
    configured: Vec<String>,
    repositories: Vec<Option<String>>,
    runs: Orchestrations,
    request: Result<LaunchRequest, String>,
    i: int,
)
    requires
        call_ensures(
            Workspace::prepare_orchestration_launch,
            (&workspace, selector, roles, limits, &configured, &repositories, &runs),
            request,
        ),
    ensures
        ({
            let found = selected(
                workspace@.projects,
                workspace@.active_project,
                selector_text(selector),
                0,
            );
            &&& request is Ok <==> found is Some
            &&& found == Some(i) ==> {
                &&& request->Ok_0.name == workspace@.projects[i].name
                &&& request->Ok_0.root == workspace@.projects[i].root
                &&& request->Ok_0.facts.project == workspace@.projects[i].id
                &&& request->Ok_0.policy.limits == limits
                &&& request->Ok_0.policy.projects_restricted <==> configured@.len() > 0
            }
        }),
{
}

/// The Pane of a new task stands below the focused one.
pub proof fn lemma_task_stands_below(workspace: &mut Workspace, pane: PaneId, area: Rect, k: int)
    requires
        call_ensures(Workspace::place_task, (workspace, pane), ()),
        old(workspace)@.wf(),
        old(workspace)@.windows.len() <= usize::MAX,
        area.fits(),
        unshown(old(workspace)@.windows, pane),
        0 <= k < old(workspace)@.tab().layout.panes().len(),
        old(workspace)@.tab().layout.panes()[k] == old(workspace)@.tab().active,
    ensures
        ({
            let split = rects(final(workspace)@.tab().layout, area);
            let a = split[k].rect;
            let b = split[k + 1].rect;
            &&& split[k].pane == old(workspace)@.tab().active
            &&& split[k + 1].pane == pane
            &&& final(workspace)@.tab().active == pane
            &&& a.x == b.x && a.w == b.w && a.bottom() <= b.y
        }),
{
    let inputs = CommandInputs { spawned: Some(pane), neighbor: None, resized: None };
    lemma_split_stands_along_its_axis(
        old(workspace)@,
        SplitAxis::TopBottom,
        inputs,
        area,
        k,
    );
}

/// An agent that gets a new Pane stands beside the focused one.
pub proof fn lemma_agent_stands_beside(workspace: &mut Workspace, pane: PaneId, area: Rect, k: int)
    requires
        call_ensures(Workspace::place_agent, (workspace, pane, LaunchTarget::NewPane), ()),
        old(workspace)@.wf(),
        old(workspace)@.windows.len() <= usize::MAX,
        area.fits(),
        unshown(old(workspace)@.windows, pane),
        0 <= k < old(workspace)@.tab().layout.panes().len(),
        old(workspace)@.tab().layout.panes()[k] == old(workspace)@.tab().active,
    ensures
        ({
            let split = rects(final(workspace)@.tab().layout, area);
            let a = split[k].rect;
            let b = split[k + 1].rect;
            &&& split[k].pane == old(workspace)@.tab().active
            &&& split[k + 1].pane == pane
            &&& final(workspace)@.tab().active == pane
            &&& a.y == b.y && a.h == b.h && a.right() <= b.x
        }),
{
    let inputs = CommandInputs { spawned: Some(pane), neighbor: None, resized: None };
    lemma_split_stands_along_its_axis(
        old(workspace)@,
        SplitAxis::LeftRight,
        inputs,
        area,
        k,
    );
}

/// An agent that gets a Tab of its own is shown there; one that runs in the focused
/// Pane changes nothing.
pub proof fn lemma_agent_gets_its_place(
    workspace: &mut Workspace,
    pane: PaneId,
    target: LaunchTarget,
)
    requires
        call_ensures(Workspace::place_agent, (workspace, pane, target), ()),
        old(workspace)@.wf(),
        old(workspace)@.windows.len() <= usize::MAX,
    ensures
        target is CurrentPane ==> final(workspace)@ == old(workspace)@,
        target is NewWindow ==> final(workspace)@.windows.len() == old(workspace)@.windows.len() + 1
            && final(workspace)@.tab().layout.panes() == seq![pane],
        target is NewPane ==> final(workspace)@.windows.len() == old(workspace)@.windows.len(),
{
}

/// A process that was forced to end is looked for once more, two seconds later,
/// where nothing else reports its end.
pub proof fn lemma_forced_process_is_looked_for(pty: &mut RetiringPty, now: u64, reaped: bool)
    requires
        call_ensures(RetiringPty::on_killed, (pty, now, reaped), ()),
        now <= u64::MAX - 2_000,
    ensures
        final(pty).kill_at is None,
        final(pty).child_exited <==> old(pty).child_exited || reaped,
        final(pty).read_pending,
        !final(pty).child_exited && !old(pty).watched ==> final(pty).fallback_at is Some
            && final(pty).fallback_at->0 == now + 2_000,
        final(pty).child_exited || old(pty).watched ==> final(pty).fallback_at
            == old(pty).fallback_at,
{
}

/// An end that is reported counts once the process was forced to end.
pub proof fn lemma_reported_end_counts(pty: &mut RetiringPty, reaped: bool)
    requires
        call_ensures(RetiringPty::on_exit_report, (pty, reaped), ()),
    ensures
        !final(pty).watched && final(pty).read_pending,
        old(pty).kill_at is None ==> final(pty).child_exited == reaped,
        old(pty).kill_at is Some ==> final(pty).child_exited == old(pty).child_exited,
        final(pty).kill_at == old(pty).kill_at,
{
}

/// A new run has no open turn, none of its agents runs yet, and its roles have the
/// Panes and providers that were given.
pub proof fn lemma_new_run_has_no_turn(
    kind: OrchestrationKind,
    template: Option<String>,
    goal: &str,
    roles: Vec<RunRole>,
    providers: Vec<RoleProvider>,
    panes: Vec<PaneId>,
    task: u64,
    started: u64,
    limits: GuardLimits,
    now: u64,
    clock: u64,
    run: ActiveRun,
    i: int,
)
    requires
        call_ensures(
            new_run,
            (kind, template, goal, roles, providers, panes, task, started, limits, now, clock),
            run,
        ),
    ensures
        run.kind == kind && run.task_id == task && run.started_at_ms == started,
        run.roles == roles && run.role_providers == providers && run.role_panes == panes,
        run.state.phase is Idle && run.state.token == 0 && run.state.cur == 0,
        run.state.max_iterations == limits.max_iterations && run.guard_limits == limits,
        run.stall_deadline is None && run.idle_deadline is None && !run.elapsed_guard_triggered,
        run.checkpoints@.len() == 0 && run.started@.len() == roles@.len(),
        0 <= i < roles@.len() ==> !run.started@[i],
{
}

/// A run is kept while it can go on.
pub proof fn lemma_live_run_is_kept(runs: &mut Orchestrations, run: ActiveRun, kept: bool)
    requires
        call_ensures(Orchestrations::keep_live, (runs, run), kept),
    ensures
        kept <==> run.state.phase is Awaiting || run.state.phase is Paused,
        kept ==> final(runs).runs(run.kind).last() == run,
        !kept ==> *final(runs) == *old(runs),
{
}

/// A turn that waits for its checkpoint is kept with its role, token and handoff.
pub proof fn lemma_turn_waits_for_its_checkpoint(
    runs: &mut Orchestrations,
    task: u64,
    role: usize,
    token: u64,
    handoff: Option<String>,
)
    requires
        call_ensures(Orchestrations::await_checkpoint, (runs, task, role, token, handoff), ()),
    ensures
        final(runs).relay_activations@.len() == old(runs).relay_activations@.len() + 1,
        final(runs).relay_activations@.last().task_id == task
            && final(runs).relay_activations@.last().role == role,
        final(runs).relay_activations@.last().token == token
            && final(runs).relay_activations@.last().handoff == handoff,
        final(runs).relays == old(runs).relays && final(runs).workflows == old(runs).workflows,
{
}

/// A guard that stops something is told in the focused Pane, for eight seconds.
pub proof fn lemma_guard_is_told(workspace: Workspace, body: &str, now: u64, toast: Toast)
    requires
        call_ensures(Workspace::show_guardrail_toast, (&workspace, body, now), toast),
        now <= u64::MAX - 8_000,
    ensures
        toast.pane == workspace@.tab().active && toast.body@ == body@,
        toast.title@ == "Guardrail"@,
        toast.expires == now + 8_000,
{
}

/// A word about an agent sounds where that is set, for attention where it waits for
/// someone.
pub proof fn lemma_word_sounds(
    workspace: Workspace,
    name: &str,
    agent: ChangedAgent,
    delivery: NotificationDelivery,
    sound: bool,
    now: u64,
    out: (Option<Chime>, Notice),
)
    requires
        call_ensures(
            Workspace::deliver_agent_notification,
            (&workspace, name, &agent, delivery, sound, now),
            out,
        ),
    ensures
        out.0 is Some <==> sound,
        sound && (agent.status is Permission || agent.status is Question) && !(
        agent.previous is Permission || agent.previous is Question)
            ==> out.0->Some_0.kind is Attention,
        sound && !(agent.status is Permission || agent.status is Question)
            ==> out.0->Some_0.kind is Done,
        sound ==> (out.0->Some_0.pane_active <==> workspace@.tab().active == agent.pane),
{
}

/// An agent's own report is believed: its name binds it, its status counts, and its
/// end unbinds it.
pub proof fn lemma_report_is_believed(
    pane: &mut AgentPane,
    ev: AgentEvent,
    front: Option<i32>,
    now: u64,
    stamp: u64,
    effect: EventEffect,
)
    requires
        call_ensures(AgentPane::apply_agent_event, (pane, ev, front, now, stamp), effect),
    ensures
        ev.status is Some && ev.status->0 is Exited ==> final(pane).agent is None && effect.ended,
        ev.agent is Some && ev.status is Some && !(ev.status->0 is Exited)
            ==> final(pane).agent is Some
            && final(pane).agent->0.id == ev.agent->0 && final(pane).agent->0.status == ev.status->0
            && final(pane).agent->0.authority is Osc777,
{
    if ev.status is Some && ev.status->0 is Exited {
        lemma_reported_end_unbinds(*old(pane), *final(pane), ev, front, now, stamp, effect);
    } else if ev.agent is Some {
        lemma_named_report_binds(*old(pane), *final(pane), ev, front, now, stamp, effect);
    }
}

/// What was painted of a Pane's output is remembered with its cursor.
pub proof fn lemma_painted_output_is_remembered(
    shown: &mut Shown,
    out: PaneOutput,
    cols: u16,
    step: DamageStep,
)
    requires
        call_ensures(Shown::broadcast_pane_damage, (shown, out, cols), step),
    ensures
        step is Paint ==> final(shown).cursor == out.cursor && final(shown).cursor_visible == Some(
            out.cursor_visible,
        ),
        !(step is Paint) ==> *final(shown) == *old(shown),
        final(shown).title == old(shown).title,
{
}

/// A title is sent when it is another, and remembered.
pub proof fn lemma_title_is_sent_once(shown: &mut Shown, title: Option<String>, send: bool)
    requires
        call_ensures(Shown::sync_window_titles, (shown, title), send),
    ensures
        send ==> final(shown).title == title,
        !send ==> *final(shown) == *old(shown),
        final(shown).cursor == old(shown).cursor,
{
}

/// The files are visible while their tab is chosen and the sidebar has room.
pub proof fn lemma_files_are_visible(canvas: Canvas, files: bool, visible: bool)
    requires
        call_ensures(Canvas::file_manager_visible, (&canvas, files), visible),
    ensures
        visible <==> files && canvas.right() > 0,
{
}

/// The mouse counts cells from one, the screen from nought.
pub proof fn lemma_mouse_counts_from_one(
    workspace: Workspace,
    view: PointerView,
    x: u16,
    y: u16,
    kind: MouseKind,
    step: MouseStep,
)
    requires
        call_ensures(Workspace::on_mouse, (&workspace, &view, x, y, kind), step),
    ensures
        x >= 1 && y >= 1 ==> step
            == workspace@.mouse_step(view, (x - 1) as u16, (y - 1) as u16, kind),
{
}

/// A request that is refused changes nothing and closes nothing.
pub proof fn lemma_refused_request_changes_nothing(
    workspace: &mut Workspace,
    name: &str,
    r: ControlRequest,
    facts: ControlFacts,
    runs: Orchestrations,
    out: ControlOutcome,
)
    requires
        call_ensures(Workspace::on_control_request, (workspace, name, &r, &facts, &runs), out),
    ensures
        refusal(name@, r, facts) matches Some(error) ==> out.reply
            == Some(ControlReply::Refused(error))
            && final(workspace)@ == old(workspace)@ && out.stop@.len() == 0 && out.closed is None
            && out.removed is None,
        refusal(name@, r, facts) is None && out.closed is Some ==> r.command is AgentStop
            && facts.has_agent,
        out.removed is Some ==> r.command is ProjectRemove && !facts.worktree,
{
}

/// A command to the server has the effect that it has on the Workspace.
pub proof fn lemma_server_carries_the_command_out(
    server: &mut Server,
    cmd: Command,
    inputs: CommandInputs,
    now: u64,
    out: ServerCommand,
)
    requires
        call_ensures(Server::handle_command, (server, cmd, inputs, now), out),
    ensures
        out.effect.copy_mode <==> cmd is CopyMode,
        out.effect.save_config <==> cmd is SidebarToggle || cmd is FileSidebarToggle
            || cmd is Observatory,
        out.effect.persist && out.effect.relayout ==> out.effect.repaint,
        !(cmd is KillPane) && !(cmd is KillWindow) ==> out.closings@.len() == 0,
        !final(server).session.view.context_menu,
        !(cmd is KillPane) && !(cmd is KillWindow) ==> final(server).session.workspace@
            == old(server).session.workspace@.commanded(cmd, inputs),
{
}

/// A launch counts its own roles and the runs that go on.
pub proof fn lemma_launch_counts_its_roles(
    project: ProjectId,
    requested: usize,
    roles: Vec<usize>,
    facts: LaunchFacts,
)
    requires
        call_ensures(launch_facts, (project, requested, &roles), facts),
    ensures
        facts.project == project,
        requested <= u16::MAX ==> facts.requested_roles == requested,
        roles@.len() <= u16::MAX ==> facts.active_runs == roles@.len(),
{
}

} // verus!
