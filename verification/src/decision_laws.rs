//! What the single decisions of the server come to, whichever way they are
//! reached: each law speaks of every answer that the decision may give.
use crate::agent_launch::{launch_place, LaunchTarget};
use crate::broadcast::{owes_final_frame, Cell, Shown};
use crate::checkpoint::{poll_timeout, CheckpointState, PollTimeout};
use crate::clients::ClientInfo;
use crate::commands::ViewState;
use crate::detection::{AgentPane, AgentStatus, Transition};
use crate::files::{handle_copy_input, CopyAction, CopyStep, FileCommand, FileTree};
use crate::guardrail::{elapsed_seconds, launch_permitted, GuardDecision};
use crate::hierarchy::{project_at, window_of, Workspace};
use crate::instruction::{
    instruction_at, instruction_invocation, InstructionCommandResult, InstructionQueue,
};
use crate::menu::{
    run_agent_context_action, AgentAction, AgentStep, AgentTarget, ContextInput, MenuKeys,
};
use crate::notices::expire_toast;
use crate::notify::{notice_title, still_current, Notifications, PendingNotification};
use crate::observatory::{run_dev_server_action, same_agent, DevServer, ServerAction, ServerStep};
use crate::orchestration::{
    orchestration_idle_allowed, Action, ActiveRun, OrchestrationKind, RunRole,
};
use crate::pane_io::{PaneInput, ReadOutcome, ReadStep, ReadTurn};
use crate::rail::project_detail;
use crate::reaper::RetiringPty;
use crate::run_actions::{
    plan_action, record_activation, workflow_prompt, ActivationRecord, RunStep,
};
use crate::run_launch::{
    check_role_panes, check_workflow, plan_relay_turn, relay_roles, RelayStart,
};
use crate::scope::SidebarScope;
use crate::server::{workspace_name, NameError};
use crate::session::Toast;
use crate::settings::{Config, SettingsSnapshot};
use crate::sources::Sources;
use crate::status::{active_cursor_visible, active_nested_input};
use crate::turns::{ClientTurn, DecodeOutcome, TurnEnd};
use crate::types::{Rect, Token};
use crate::viewport::active_cursor_pos;
use crate::waits::{answer_agent_wait, WaitAnswer};
use vstd::prelude::*;

verus! {

/// An agent starts where it was asked to, but never in a Pane that is busy.
pub proof fn lemma_agent_starts_in_a_free_pane(
    target: LaunchTarget,
    busy: Option<bool>,
    place: Option<LaunchTarget>,
)
    requires
        call_ensures(launch_place, (target, busy), place),
    ensures
        !(target is CurrentPane) ==> place == Some(target),
        target is CurrentPane && busy == Some(true) ==> place == Some(LaunchTarget::NewPane),
        target is CurrentPane && busy == Some(false) ==> place == Some(target),
        target is CurrentPane && busy is None ==> place is None,
{
}

/// The checkpoint is due from its time on.
pub proof fn lemma_checkpoint_is_due(state: CheckpointState, now: u64, due: bool)
    requires
        call_ensures(CheckpointState::flush_snapshot_due, (&state, now), due),
    ensures
        due <==> state.deadline is Some && state.deadline->0 <= now,
{
}

/// A checkpoint that is written is no longer due, and nothing is written once
/// writing has stopped for good.
pub proof fn lemma_checkpoint_is_written_once(state: &mut CheckpointState, write: bool)
    requires
        call_ensures(CheckpointState::persist, (state,), write),
    ensures
        write <==> old(state).writes_enabled,
        final(state).deadline is None,
        final(state).writes_enabled == old(state).writes_enabled,
{
}

/// Once frozen, a checkpoint is never written.
pub proof fn lemma_frozen_checkpoint(state: &mut CheckpointState)
    requires
        call_ensures(CheckpointState::freeze, (state,), ()),
    ensures
        !final(state).writes_enabled,
        final(state).deadline == old(state).deadline,
{
}

/// The loop does not wait while work is left over, and never past its next
/// deadline.
pub proof fn lemma_loop_waits_for_its_deadline(
    accepts: bool,
    reads: bool,
    deadline: Option<u64>,
    now: u64,
    timeout: PollTimeout,
)
    requires
        call_ensures(poll_timeout, (accepts, reads, deadline, now), timeout),
    ensures
        timeout is Now <==> accepts || reads,
        timeout is Forever <==> !accepts && !reads && deadline is None,
        timeout is Millis && deadline->0 >= now ==> now + timeout->Millis_0 == deadline->0,
        timeout is Millis && deadline->0 < now ==> timeout->Millis_0 == 0,
{
}

/// A toast is taken away once its time is over.
pub proof fn lemma_toast_is_taken_away(toast: &mut Option<Toast>, now: u64, gone: bool)
    requires
        call_ensures(expire_toast, (toast, now), gone),
    ensures
        gone <==> *old(toast) is Some && (*old(toast))->0.expires <= now,
        gone ==> *final(toast) is None,
        !gone ==> *final(toast) == *old(toast),
{
}

/// Seconds since a run began are counted whole, and none before it began.
pub proof fn lemma_seconds_are_counted_whole(started: u64, now: u64, seconds: u64)
    requires
        call_ensures(elapsed_seconds, (started, now), seconds),
    ensures
        now >= started ==> started + seconds * 1_000 <= now < started + seconds * 1_000 + 1_000,
        now < started ==> seconds == 0,
{
}

/// A launch goes ahead only where the guard allows it outright; else its reason
/// is given.
pub proof fn lemma_launch_goes_ahead_where_allowed(
    decision: GuardDecision,
    permitted: Result<(), String>,
)
    requires
        call_ensures(launch_permitted, (decision,), permitted),
    ensures
        permitted is Ok <==> decision is Allow,
        decision is Ask ==> permitted->Err_0 == decision->Ask_0,
        decision is Deny ==> permitted->Err_0 == decision->Deny_0,
{
}

/// Instructions are meant for the agent's process; while another runs in front
/// of it, for none.
pub proof fn lemma_instruction_is_meant_for_the_agent(
    agent: Option<i32>,
    front: Option<i32>,
    pid: Option<i32>,
)
    requires
        call_ensures(instruction_invocation, (agent, front), pid),
    ensures
        agent is None ==> pid == front,
        agent is Some && (front is None || front == agent) ==> pid == agent,
        agent is Some && front is Some && front != agent ==> pid is None,
{
}

/// An entry of an agent's menu acts on that agent: where another has taken the
/// Pane since, nothing happens.
pub proof fn lemma_agent_menu_acts_on_its_agent(
    target: AgentTarget,
    action: AgentAction,
    present: Option<(u64, Option<i32>)>,
    cwd: Option<String>,
    step: AgentStep,
)
    requires
        call_ensures(run_agent_context_action, (target, action, present, cwd), step),
    ensures
        present != Some((target.started_at, target.foreground_pid)) ==> step is Nothing,
        present == Some((target.started_at, target.foreground_pid)) ==> {
            &&& action is Focus ==> step == AgentStep::Focus(target.pane)
            &&& action is Stop ==> step == AgentStep::Stop(target.pane)
            &&& action is CopyPath && cwd is Some ==> step == AgentStep::Copy(cwd->0)
            &&& action is CopyPath && cwd is None ==> step is Nothing
        },
{
}

/// Keys at an open menu move in it, close it, or carry an entry out, which closes
/// it too; without an open menu they do nothing.
pub proof fn lemma_keys_at_a_menu(view: &mut ViewState, input: ContextInput, keys: MenuKeys)
    requires
        call_ensures(ViewState::handle_context_input, (view, input), keys),
    ensures
        !old(view).context_menu ==> keys is Nothing && *final(view) == *old(view),
        old(view).context_menu && input is Run ==> keys == MenuKeys::Run(input->Run_0)
            && !final(view).context_menu,
        old(view).context_menu && input is Close ==> keys is Repaint && !final(view).context_menu,
        old(view).context_menu && input is Redraw ==> keys is Repaint && final(view).context_menu,
        old(view).context_menu && input is Nothing ==> keys is Nothing && final(view).context_menu,
        final(view).sidebar == old(view).sidebar && final(view).file_sidebar
            == old(view).file_sidebar && final(view).files_focused == old(view).files_focused,
{
}

/// A change is told while it is still what the agent shows.
pub proof fn lemma_change_is_still_so(
    notice: PendingNotification,
    status: Option<AgentStatus>,
    current: bool,
)
    requires
        call_ensures(still_current, (&notice, status), current),
    ensures
        current <==> status is Some && status->0 == notice.status,
{
}

/// Silence forgets every change.
pub proof fn lemma_silence_forgets(queue: &mut Notifications)
    requires
        call_ensures(Notifications::silence, (queue,), ()),
    ensures
        final(queue).pending@.len() == 0,
{
}

/// The title says whether the agent waits for someone or is done.
pub proof fn lemma_title_says_what_changed(
    agent: &str,
    previous: AgentStatus,
    status: AgentStatus,
    title: String,
)
    requires
        call_ensures(notice_title, (agent, previous, status), title),
    ensures
        (status is Permission || status is Question) && !(previous is Permission
            || previous is Question) ==> title@ == agent@ + " needs input"@,
        !(status is Permission || status is Question) ==> title@ == agent@ + " finished"@,
{
}

/// An idle role's turn never ends by itself past a human, a check under way, a
/// verifier, or artifacts that are still owed.
pub proof fn lemma_turn_that_may_end_by_itself(
    waiting: bool,
    checked: bool,
    verifier: bool,
    owes: bool,
    allowed: bool,
)
    requires
        call_ensures(orchestration_idle_allowed, (waiting, checked, verifier, owes), allowed),
    ensures
        waiting || checked || verifier || owes ==> !allowed,
        !waiting && !checked && !verifier && !owes ==> allowed,
{
}

/// An agent is the same while it is the same process since the same time.
pub proof fn lemma_same_agent(
    since: u64,
    pid: Option<i32>,
    now_since: u64,
    now_pid: Option<i32>,
    same: bool,
)
    requires
        call_ensures(same_agent, (since, pid, now_since, now_pid), same),
    ensures
        same ==> since == now_since && pid == now_pid,
        since == now_since && pid == now_pid ==> same,
{
}

/// The shell's screen is brought back when a program left its own screen up and
/// gave the terminal back to the shell.
pub proof fn lemma_shell_gets_its_screen_back(
    pane: AgentPane,
    front: Option<i32>,
    shell: bool,
    alt: bool,
    recovers: bool,
)
    requires
        call_ensures(AgentPane::recovers_shell_screen, (&pane, front, shell, alt), recovers),
    ensures
        recovers ==> front != pane.foreground_pid && shell && alt,
        front != pane.foreground_pid && shell && alt ==> recovers,
{
}

/// What the engine decides is done: a role is prompted in its own Pane, a human
/// is asked in the Pane of the turn, and a run ends as done or with the reason.
pub proof fn lemma_decision_is_carried_out(run: ActiveRun, action: Action, step: RunStep)
    requires
        call_ensures(plan_action, (&run, action), step),
    ensures
        action is Inject ==> step is Prompt && step->Prompt_role == action->role
            && step->Prompt_token
            == action->token && step->Prompt_pane == run.role_panes@[action->role as int],
        action is Complete ==> step is Finish && step->done && step->outcome@ == "done"@,
        action is Abort ==> step is Finish && !step->done && step->outcome == action->Abort_reason,
        action is Escalate ==> step is Ask && step->Ask_pane
            == run.role_panes@[run.state.cur as int] && step->Ask_reason
            == action->Escalate_reason,
        action is AwaitSubmit || action is Hold ==> step is Nothing,
{
}

/// A turn that passes from one role to another is recorded as a handoff between
/// them, any other as an activation.
pub proof fn lemma_turn_is_recorded(active: Option<u64>, role: u64, record: ActivationRecord)
    requires
        call_ensures(record_activation, (active, role), record),
    ensures
        record is Handoff <==> active is Some && active->0 != role,
        record is Handoff ==> record->from == active->0 && record->to == role,
        record is Activated ==> record->role == role,
{
}

/// A turn that the verifier sent back opens with what it found, before the role's
/// own prompt.
pub proof fn lemma_prompt_tells_what_was_found(
    rendered: String,
    findings: Option<&str>,
    prompt: String,
)
    requires
        call_ensures(workflow_prompt, (rendered, findings), prompt),
    ensures
        findings is None ==> prompt@ == rendered@,
        findings is Some ==> prompt@ == "The verifier sent this back. Findings: "@ + findings->0@
            + ". "@ + rendered@,
{
}

/// A run is measured by its whole seconds, and never by less than its limit.
pub proof fn lemma_run_is_measured(run: ActiveRun, now: u64, seconds: u64)
    requires
        call_ensures(ActiveRun::elapsed_measure, (&run, now), seconds),
    ensures
        seconds >= run.guard_limits.max_elapsed_seconds,
        now >= run.started_at_ms && seconds > run.guard_limits.max_elapsed_seconds ==>
            run.started_at_ms + seconds * 1_000 <= now < run.started_at_ms + seconds * 1_000 + 1_000,
        now >= run.started_at_ms ==> now < run.started_at_ms + seconds * 1_000 + 1_000,
{
}

/// A workflow is launched where its template is known and each role of it has a
/// provider.
pub proof fn lemma_workflow_that_can_be_launched(
    name: &str,
    roles: Option<usize>,
    providers: usize,
    checked: Result<(), String>,
)
    requires
        call_ensures(check_workflow, (name, roles, providers), checked),
    ensures
        checked is Ok <==> roles == Some(providers),
        roles is None ==> checked->Err_0@ == "unknown workflow template '"@ + name@
            + "' (expected solo, pair, or triad)"@,
{
}

/// A run needs a Pane for each of its roles.
pub proof fn lemma_every_role_has_its_pane(
    kind: OrchestrationKind,
    roles: usize,
    spawned: usize,
    checked: Result<(), String>,
)
    requires
        call_ensures(check_role_panes, (kind, roles, spawned), checked),
    ensures
        checked is Ok <==> roles == spawned,
        checked is Err && kind is Workflow ==> checked->Err_0@
            == "could not create every workflow role Pane"@,
        checked is Err && kind is Relay ==> checked->Err_0@
            == "could not create both relay role Panes"@,
{
}

/// A relay has two roles: a builder, and the one that was named.
pub proof fn lemma_relay_has_two_roles(second: String, roles: Vec<RunRole>)
    requires
        call_ensures(relay_roles, (second,), roles),
    ensures
        roles@.len() == 2,
        roles@[0].name@ == "builder"@,
        roles@[1].name == second,
        !roles@[0].verifier && !roles@[1].verifier,
        roles@[0].expected_artifacts@.len() == 0 && roles@[1].expected_artifacts@.len() == 0,
{
}

/// A builder's turn waits for a copy of its Project; every other turn, and a
/// builder's without a Project, starts at once.
pub proof fn lemma_builder_waits_for_a_copy(
    run: ActiveRun,
    action: Action,
    workspace: Workspace,
    start: RelayStart,
    w: int,
    p: int,
)
    requires
        call_ensures(plan_relay_turn, (&run, action, &workspace), start),
    ensures
        !(action is Inject) ==> start == RelayStart::Act(action),
        action is Inject && run.roles@[action->role as int].name@ != "builder"@ ==> start
            == RelayStart::Act(action),
        action is Inject && run.roles@[action->role as int].name@ == "builder"@ && window_of(
            workspace@.windows,
            run.role_panes@[action->role as int],
        ) == Some(w) && project_at(workspace@.projects, workspace@.windows[w].project) == Some(p)
            ==> start is Checkpoint && start->Checkpoint_role == action->role
            && start->Checkpoint_token == action->token && start->root
            == workspace@.projects[p].root,
        action is Inject && window_of(
            workspace@.windows,
            run.role_panes@[action->role as int],
        ) is None ==> start == RelayStart::Act(action),
{
}

/// A list says which it shows, in full where there is room.
pub proof fn lemma_scope_is_named(scope: SidebarScope, available: usize, label: &'static str)
    requires
        call_ensures(SidebarScope::label, (scope, available), label),
    ensures
        scope is Project && available >= 17 ==> label@ == "project"@,
        scope is Project && available < 17 ==> label@ == "proj"@,
        scope is Workspace && available >= 17 ==> label@ == "workspace"@,
        scope is Workspace && available < 17 ==> label@ == "all"@,
{
}

/// A Workspace goes by the name of its socket, where that is a valid one.
pub proof fn lemma_workspace_is_named_by_its_socket(
    stem: Option<String>,
    rejected: Option<String>,
    name: Result<String, NameError>,
)
    requires
        call_ensures(workspace_name, (stem, rejected), name),
    ensures
        name is Ok <==> stem is Some && rejected is None,
        name is Ok ==> name->Ok_0 == stem->0,
        stem is None ==> name->Err_0 is NoStem,
        stem is Some && rejected is Some ==> name->Err_0 is Invalid,
{
}

/// The cursor stands in its Pane, or where copy mode says.
pub proof fn lemma_cursor_stands_in_its_pane(
    rect: Option<Rect>,
    copy: Option<Cell>,
    cursor: Cell,
    at: Option<Cell>,
)
    requires
        call_ensures(active_cursor_pos, (rect, copy, cursor), at),
    ensures
        rect is None ==> at is None,
        rect is Some && copy is Some ==> at == copy,
        rect is Some && copy is None && rect->0.x + cursor.col <= u16::MAX && rect->0.y + cursor.row
            <= u16::MAX ==> at is Some && at->0.col == rect->0.x + cursor.col && at->0.row
            == rect->0.y + cursor.row,
{
}

/// Who waits for an agent is answered when the Pane is gone, the status came, or
/// the time is over, in this order, and not before.
pub proof fn lemma_wait_for_an_agent_is_answered(
    lives: bool,
    current: Option<AgentStatus>,
    status: AgentStatus,
    deadline: u64,
    now: u64,
    answer: WaitAnswer,
)
    requires
        call_ensures(answer_agent_wait, (lives, current, status, deadline, now), answer),
    ensures
        answer is Gone <==> !lives,
        answer is Matched <==> lives && current is Some && current->0 == status,
        answer is TimedOut <==> lives && now >= deadline && current != Some(status),
        answer is Later <==> lives && now < deadline && current != Some(status),
{
}

/// The cursor hides under a menu and while the file tree has the keys; else it
/// shows in copy mode, and as the program asks.
pub proof fn lemma_when_the_cursor_shows(
    menu: bool,
    focused: bool,
    shown: bool,
    copying: bool,
    asked: Option<bool>,
    visible: bool,
)
    requires
        call_ensures(active_cursor_visible, (menu, focused, shown, copying, asked), visible),
    ensures
        menu || (focused && shown) ==> !visible,
        !menu && !(focused && shown) && (copying || asked is None) ==> visible,
        !menu && !(focused && shown) && !copying && asked is Some ==> visible == asked->0,
{
}

/// Keys go to a nested session unless the overview or a menu takes them.
pub proof fn lemma_keys_of_a_nested_session(
    overview: bool,
    menu: bool,
    nested: Option<bool>,
    active: bool,
)
    requires
        call_ensures(active_nested_input, (overview, menu, nested), active),
    ensures
        active <==> nested == Some(true) && !overview && !menu,
{
}

/// A process is forced to end from its time on.
pub proof fn lemma_process_is_forced_in_time(pty: RetiringPty, now: u64, due: bool)
    requires
        call_ensures(RetiringPty::kill_due, (&pty, now), due),
    ensures
        due <==> pty.kill_at is Some && pty.kill_at->0 <= now,
{
}

/// A teardown is over once the process was forced to end and is collected or
/// given up.
pub proof fn lemma_teardown_is_over(pty: &mut RetiringPty, now: u64, reaped: bool, complete: bool)
    requires
        call_ensures(RetiringPty::finish, (pty, now, reaped), complete),
    ensures
        complete ==> old(pty).kill_at is None,
        complete ==> final(pty).child_exited || (old(pty).fallback_at is Some
            && old(pty).fallback_at->0 <= now),
        old(pty).kill_at is None && old(pty).child_exited ==> complete,
        final(pty).child_exited <==> old(pty).child_exited || (reaped
            && old(pty).fallback_at is Some
            && old(pty).fallback_at->0 <= now),
{
}

/// A client's turn ends with its removal where it is to go, with a painting where
/// one is owed, and leaves it alone else.
pub proof fn lemma_turn_of_a_client_ends(
    turn: ClientTurn,
    detached: bool,
    dead: bool,
    repaint: bool,
    end: TurnEnd,
)
    requires
        call_ensures(ClientTurn::finish, (&turn, detached, dead, repaint), end),
    ensures
        end is Remove <==> turn.remove || detached || dead,
        end is Repaint <==> repaint && !turn.remove && !detached && !dead,
{
}

/// A client that sends nonsense, or more than a turn's messages, is removed.
pub proof fn lemma_client_that_sends_nonsense_is_removed(
    turn: &mut ClientTurn,
    outcome: DecodeOutcome,
    again: bool,
)
    requires
        call_ensures(ClientTurn::decoded, (turn, outcome), again),
    ensures
        outcome is Malformed ==> final(turn).remove && !again,
        outcome is Partial && old(turn).messages < 1_024 ==> !again && final(turn).remove
            == old(turn).remove && final(turn).messages
            == old(turn).messages,
        outcome is Message && old(turn).messages + 1 < 1_024 ==> again && final(turn).remove
            == old(turn).remove && final(turn).messages == old(turn).messages + 1,
        outcome is Message && old(turn).messages + 1 == 1_024 ==> !again && final(turn).remove,
{
}

/// A client that hung up is removed.
pub proof fn lemma_client_that_hung_up_is_removed(turn: &mut ClientTurn, step: ReadStep)
    requires
        call_ensures(ClientTurn::reads_ended, (turn, step), ()),
    ensures
        step is Closed ==> final(turn).remove,
        !(step is Closed) ==> final(turn).remove == old(turn).remove,
        final(turn).messages == old(turn).messages,
{
}

/// A connection is let in while there are fewer than a hundred and twenty-eight
/// clients, each under a token of its own.
pub proof fn lemma_connection_is_let_in(sources: &mut Sources, clients: usize, token: Option<Token>)
    requires
        call_ensures(Sources::let_in, (sources, clients), token),
        old(sources).next_token < usize::MAX,
    ensures
        token is Some <==> clients < 128,
        token is Some ==> token == Some(Token(old(sources).next_token)) && final(sources).next_token
            == old(sources).next_token + 1,
        token is None ==> final(sources).next_token == old(sources).next_token,
        final(sources).panes == old(sources).panes,
{
}

/// A client that has just connected shows nothing yet.
pub proof fn lemma_new_client_shows_nothing(token: Token, cols: u16, rows: u16, client: ClientInfo)
    requires
        call_ensures(ClientInfo::connected, (token, cols, rows), client),
    ensures
        client.token == token && client.cols == cols && client.rows == rows,
        !client.attached && client.direct is None && !client.overlay && !client.dead,
        !client.direct_only,
{
}

/// Below a Project's name stands its worktree, else the first of its notes, else
/// its path.
pub proof fn lemma_what_stands_below_a_project(
    worktree: Option<String>,
    note: Option<String>,
    path: String,
    detail: String,
)
    requires
        call_ensures(project_detail, (worktree, note, path), detail),
    ensures
        worktree is Some ==> detail == worktree->0,
        worktree is None && note is Some ==> detail == note->0,
        worktree is None && note is None ==> detail == path,
{
}

/// A status that the runtime sets is the agent's status; that it changed is told.
pub proof fn lemma_status_is_set(
    pane: &mut AgentPane,
    status: AgentStatus,
    change: Option<Transition>,
)
    requires
        call_ensures(AgentPane::set_status, (pane, status), change),
    ensures
        old(pane).agent is None ==> *final(pane) == *old(pane) && change is None,
        old(pane).agent is Some ==> final(pane).agent is Some && final(pane).agent->0.status
            == status
            && final(pane).agent->0.id == old(pane).agent->0.id,
        old(pane).agent is Some ==> (change is Some <==> old(pane).agent->0.status != status),
        change is Some ==> change->0.previous == old(pane).agent->0.status && change->0.status
            == status,
{
}

/// The settings are shown as they are, the time limit in whole minutes.
pub proof fn lemma_settings_are_shown(config: Config, shown: SettingsSnapshot)
    requires
        call_ensures(Config::settings_snapshot, (&config,), shown),
    ensures
        shown.theme == config.theme && shown.editor == config.editor && shown.editor_rules
            == config.editor_rules,
        shown.status == config.status && shown.status_top == config.status_top,
        shown.sidebar == config.sidebar && shown.sidebar_width == config.sidebar_width,
        shown.file_sidebar == config.file_sidebar && shown.file_sidebar_width
            == config.file_sidebar_width,
        shown.notification_delivery == config.notifications && shown.notify_completion
            == config.notify_completion,
        shown.focus_follows_mouse == config.focus_follows_mouse,
        shown.confirm_close == config.confirm_close && shown.confirm_tab_close
            == config.confirm_tab_close,
        shown.scrollback_limit == config.scrollback_limit && shown.restore == config.restore,
        shown.guardrail_max_active_runs == config.guardrails.max_active_runs,
        shown.guardrail_max_role_panes == config.guardrails.max_role_panes,
        shown.guardrail_max_iterations == config.guardrails.max_iterations,
        shown.guardrail_max_elapsed_minutes * 60 <= config.guardrails.max_elapsed_seconds
            < shown.guardrail_max_elapsed_minutes * 60 + 60,
{
}

/// Keys in copy mode move in it, leave it, or leave it with what was copied; out
/// of it they are for the program.
pub proof fn lemma_keys_in_copy_mode(copying: bool, action: CopyAction, step: CopyStep)
    requires
        call_ensures(handle_copy_input, (copying, action), step),
    ensures
        step is NotCopying <==> !copying,
        copying && action is Idle ==> step is Nothing,
        copying && action is Redraw ==> step is Repaint,
        copying && action is Exit ==> step == CopyStep::Leave(None),
        copying && action is Copy ==> step == CopyStep::Leave(Some(action->Copy_0)),
{
}

/// A whole frame parks the cursor it drew, and none under what covers it.
pub proof fn lemma_whole_frame_parks_its_cursor(
    shown: &mut Shown,
    covered: bool,
    cursor: Option<Cell>,
    visible: bool,
    title: Option<String>,
)
    requires
        call_ensures(Shown::full_repaint_all, (shown, covered, cursor, visible, title), ()),
    ensures
        covered ==> final(shown).cursor is None,
        !covered ==> final(shown).cursor == cursor,
        final(shown).cursor_visible == Some(visible),
        final(shown).title == title,
{
}

/// A frame for one client counts for all where no other shows the Workspace.
pub proof fn lemma_frame_for_one_client(
    shown: &mut Shown,
    covered: bool,
    cursor: Option<Cell>,
    visible: bool,
    title: Option<String>,
    sole: bool,
)
    requires
        call_ensures(Shown::full_repaint_client, (shown, covered, cursor, visible, title, sole), ()),
    ensures
        covered ==> final(shown).cursor == old(shown).cursor,
        !covered ==> final(shown).cursor == cursor,
        final(shown).cursor_visible == Some(visible),
        sole ==> final(shown).title == title,
        !sole ==> final(shown).title == old(shown).title,
{
}

/// The last frame is owed to a client that shows the Workspace, lives, and had no
/// room for the damage.
pub proof fn lemma_last_frame_is_owed(client: ClientInfo, pending: bool, owed: bool)
    requires
        call_ensures(owes_final_frame, (client, pending), owed),
    ensures
        owed <==> client.attached && client.direct is None && !client.dead && pending,
{
}

/// Input is taken whole or not at all, up to eight mebibytes, and after what waits.
pub proof fn lemma_input_is_taken_whole(input: &mut PaneInput, bytes: &[u8], accepted: bool)
    requires
        call_ensures(PaneInput::queue, (input, bytes), accepted),
    ensures
        accepted <==> old(input)@.len() + bytes@.len() <= 8_388_608,
        accepted ==> final(input)@ == old(input)@ + bytes@,
        !accepted ==> final(input)@ == old(input)@,
{
}

/// A turn of reading goes on until the source has no more, is closed, or the turn
/// has had its share.
pub proof fn lemma_turn_of_reading(turn: &mut ReadTurn, outcome: ReadOutcome, next: ReadStep)
    requires
        call_ensures(ReadTurn::step, (turn, outcome), next),
    ensures
        outcome is Data ==> final(turn).read == old(turn).read + outcome->Data_0,
        outcome is Data ==> (next is Spent <==> final(turn).read >= 262_144) && (next is Again
            <==> final(turn).read < 262_144),
        outcome is Interrupted ==> next is Again,
        outcome is WouldBlock ==> next is Drained,
        outcome is Eof || outcome is Failed ==> next is Closed,
        !(outcome is Data) ==> final(turn).read == old(turn).read,
{
}

/// An entry of a server's menu acts on the server it was opened on; a server is
/// stopped once.
pub proof fn lemma_server_menu_acts_on_its_server(
    server: &mut DevServer,
    detected: u64,
    action: ServerAction,
    session: Option<i32>,
    step: ServerStep,
)
    requires
        call_ensures(run_dev_server_action, (server, detected, action, session), step),
    ensures
        old(server).detected != detected ==> step is Nothing && *final(server) == *old(server),
        old(server).detected == detected && action is Open ==> step == ServerStep::Open(
            old(server).url,
        ),
        old(server).detected == detected && action is Focus ==> step == ServerStep::Focus(
            old(server).pane,
        ),
        step is Stop <==> old(server).detected == detected && action is Stop
            && !old(server).stopping
            && session is Some,
        step is Stop ==> step->session == session->0 && final(server).stopping,
        !(step is Stop) ==> final(server).stopping == old(server).stopping,
        final(server).pane == old(server).pane && final(server).port == old(server).port,
{
}

/// A Pane that took an instruction has it no longer in the queue; one that refused
/// it keeps it in its place.
pub proof fn lemma_instruction_is_handed_over(
    queue: &mut InstructionQueue,
    id: u64,
    accepted: bool,
    result: InstructionCommandResult,
    i: int,
)
    requires
        call_ensures(InstructionQueue::finish_handover, (queue, id, accepted), result),
    ensures
        result.id == id,
        instruction_at(old(queue).items@, id, 0) is None ==> !result.found && !result.accepted
            && final(queue).items@ == old(queue).items@,
        instruction_at(old(queue).items@, id, 0) == Some(i) ==> result.found && result.accepted
            == accepted,
        instruction_at(old(queue).items@, id, 0) == Some(i) && accepted ==> final(queue).items@
            == old(queue).items@.remove(i),
        !accepted ==> final(queue).items@ == old(queue).items@,
{
}

/// The tree is listed and watched only while a client can see it, and for its own
/// Project.
pub proof fn lemma_tree_is_listed_while_seen(
    tree: FileTree,
    visible: bool,
    clients: bool,
    wanted: bool,
    directory: String,
    command: Option<FileCommand>,
)
    requires
        call_ensures(FileTree::request_file_listing, (&tree, visible, clients, wanted, directory), command),
    ensures
        command is Some <==> visible && clients && wanted,
        command is Some ==> command->0 is List && command->0->List_project == tree.project
            && command->0->List_root == tree.root && command->0->directory == directory,
{
}

} // verus!
