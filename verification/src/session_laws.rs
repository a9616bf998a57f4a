//! What a client's requests come to: who hears its keys, what a control request
//! is answered, and when it is refused.
use crate::clients::{
    attached_list, client_at, contested, resized_list, set_apart, viewport, ClientInfo,
    PaneAttachRole,
};
use crate::control::{
    answer, carried_out, outside_answer, project_renamed, refusal, tab_renamed, to_stop,
    ControlCommand, ControlError, ControlFacts, ControlRequest, OutsideResult,
};
use crate::hierarchy::{project_at, tabs_of, window_of, WorkspaceState};
use crate::messages::{coalesced, last_resize, thinned, ClientMessage};
use crate::orchestration::Orchestrations;
use crate::search_path::{acceptable, firsts, texts};
use crate::session::{direct_may_send, msg_done, task_route, MsgFacts, MsgStep, Session};
use crate::text::{clipped, trimmed};
use crate::types::{PaneId, ProjectId, Token};
use vstd::prelude::*;

verus! {

/// Keys of a client that shows the Workspace go to what lies on top: an open
/// menu, the files where they have the focus and are to be seen, the overview,
/// a frozen Pane, and else the focused Pane of the shown Tab.
pub proof fn lemma_keys_go_to_what_lies_on_top(
    a: Session,
    b: Session,
    token: Token,
    bytes: Vec<u8>,
    facts: MsgFacts,
    step: MsgStep,
)
    requires
        msg_done(a, b, token, ClientMessage::Input(bytes), facts, step),
        a.client(token) is Some ==> !a.client(token)->0.direct_only,
    ensures
        ({
            let menu = a.view.context_menu;
            let files = a.view.files_focused && a.view.observatory_tab is Files
                && a.canvas().right() > 0;
            let overview = a.workspace@.overview is Some;
            &&& menu ==> step == MsgStep::MenuInput(bytes)
            &&& !menu && files ==> step == MsgStep::FileInput(bytes)
            &&& !menu && !files && overview ==> step is Overview
            &&& !menu && !files && !overview && facts.copying ==> step == MsgStep::CopyInput(bytes)
            &&& !menu && !files && !overview && !facts.copying ==> step == (MsgStep::SendInput {
                pane: a.workspace@.windows[a.workspace@.active_window].active,
                bytes,
            })
            &&& !(!menu && !files && overview) ==> b == a
        }),
{
}

/// Keys of a client that has a Pane for itself go there and nowhere else, and
/// only where it may drive the Pane.
pub proof fn lemma_keys_of_a_single_pane(
    a: Session,
    b: Session,
    token: Token,
    bytes: Vec<u8>,
    facts: MsgFacts,
    step: MsgStep,
)
    requires
        msg_done(a, b, token, ClientMessage::Input(bytes), facts, step),
        a.client(token) is Some,
        a.client(token)->0.direct_only,
    ensures
        b == a,
        ({
            let direct = a.client(token)->0.direct;
            let drives = direct is Some && !(direct->0.role is Observer);
            &&& drives ==> step == (MsgStep::SendInput { pane: direct->0.pane, bytes })
            &&& !drives ==> step is Ignored
        }),
{
}

/// A client that is held to a single Pane can ask for a Pane, type, resize, have
/// it painted and leave; it changes nothing of the Workspace.
pub proof fn lemma_single_pane_client_is_held(msg: ClientMessage)
    ensures
        direct_may_send(msg) <==> msg is PaneAttach || msg is Input || msg is Resize
            || msg is Refresh || msg is FocusGained || msg is Detach,
{
}

/// What a client asks to be shown is shown: a Pane by its focus, a Project by a
/// switch to it, and a request that only looks changes nothing.
pub proof fn lemma_request_to_the_workspace(
    a: Session,
    b: Session,
    token: Token,
    msg: ClientMessage,
    facts: MsgFacts,
    step: MsgStep,
)
    requires
        msg_done(a, b, token, msg, facts, step),
    ensures
        msg is PaneFocus ==> {
            &&& b.workspace@ == a.workspace@.focus_on(msg->PaneFocus_pane)
            &&& step is PaneFocused
            &&& step->found <==> window_of(a.workspace@.windows, msg->PaneFocus_pane) is Some
        },
        msg is AgentFocus ==> {
            &&& b.workspace@ == a.workspace@.focus_on(msg->AgentFocus_pane)
            &&& step is AgentFocused
        },
        msg is ProjectSwitch ==> b.workspace@ == a.workspace@.switch_to(
            msg->ProjectSwitch_project,
        ),
        msg is ProjectMove ==> b.workspace@ == a.workspace@.move_project(
            msg->ProjectMove_project,
            msg->towards,
        ),
        msg is AgentStop && facts.has_agent ==> {
            &&& b.workspace@ == a.workspace@.close(msg->AgentStop_pane)
            &&& step == MsgStep::PaneClosed(a.workspace@.closing(msg->AgentStop_pane))
        },
        msg is AgentStop && !facts.has_agent ==> b == a && step is Ignored,
        msg is Command ==> b == a && step == MsgStep::RunCommand(msg->Command_0),
        msg is KillServer ==> b == a && step is Stop,
        msg is Detach ==> b == a && step is Detached,
        msg is Mouse ==> b == a && step == (MsgStep::Point {
            x: msg->x,
            y: msg->y,
            event: msg->event,
        }),
        msg is Refresh || msg is FocusGained || msg is Query ==> b == a,
        b.search_path == a.search_path || msg is RemoteEnvironment,
        b.frame == a.frame,
        b.view == a.view || msg is OverlayVisible,
{
}

/// A Project is removed, and all agents are stopped, only where the rules let
/// that pass: else the client is asked, and nothing changes.
pub proof fn lemma_destruction_is_asked_for(
    a: Session,
    b: Session,
    token: Token,
    msg: ClientMessage,
    facts: MsgFacts,
    step: MsgStep,
)
    requires
        msg_done(a, b, token, msg, facts, step),
        msg is ProjectRemove || msg is AgentsStopAll,
    ensures
        !facts.permitted ==> b == a,
        msg is ProjectRemove ==> (step is RemovalUnconfirmed <==> !facts.permitted),
        msg is AgentsStopAll ==> (step is StopUnconfirmed <==> !facts.permitted),
        msg is AgentsStopAll && facts.permitted ==> b == a && step is StopAgents,
        msg is ProjectRemove && facts.permitted && facts.worktree ==> b == a && step
            == MsgStep::RemoveWorktree(msg->ProjectRemove_project),
        msg is ProjectRemove && facts.permitted && !facts.worktree ==> step is ProjectRemoved,
{
}

/// A wait ends no later than an hour from now and no earlier than a moment, and
/// looks for what was asked, cut to its first letters where it is too long.
pub proof fn lemma_wait_is_kept_as_asked(
    a: Session,
    b: Session,
    token: Token,
    msg: ClientMessage,
    facts: MsgFacts,
    step: MsgStep,
)
    requires
        msg_done(a, b, token, msg, facts, step),
        msg is PaneWaitOutput || msg is AgentWait,
        facts.now <= u64::MAX - 3_600_000,
    ensures
        b == a,
        step is Wait,
        ({
            let wait = step->Wait_0;
            let end = wait.ends();
            let asked = if msg is AgentWait {
                msg->AgentWait_timeout_ms
            } else {
                msg->PaneWaitOutput_timeout_ms
            };
            &&& facts.now < end <= facts.now + 3_600_000
            &&& 1 <= asked <= 3_600_000 ==> end == facts.now + asked
            &&& asked > 3_600_000 ==> end == facts.now + 3_600_000
            &&& msg is AgentWait ==> {
                &&& wait is Agent
                &&& wait->Agent_pane == msg->AgentWait_pane
                &&& wait->status == msg->wanted
            }
            &&& msg is PaneWaitOutput ==> {
                &&& wait is Output
                &&& wait->Output_pane == msg->PaneWaitOutput_pane
                &&& wait->needle@ == clipped(msg->needle@, 4_096)
            }
        }),
{
}

/// A task goes to the workflow that it names, else to a relay where one was
/// asked for; roles without either are refused, and the rest is a plain launch.
pub proof fn lemma_task_goes_where_it_was_sent(
    workflow: Option<String>,
    relay: bool,
    role_providers: int,
)
    requires
        role_providers >= 0,
    ensures
        task_route(workflow, relay, role_providers) is Workflow <==> workflow is Some,
        task_route(workflow, relay, role_providers) is Relay <==> workflow is None && relay,
        task_route(workflow, relay, role_providers) is Refused <==> workflow is None && !relay
            && role_providers != 0,
        task_route(workflow, relay, role_providers) is Plain <==> workflow is None && !relay
            && role_providers == 0,
{
}

/// A submission is handed on as it came: a failed turn as failed, any other as
/// done, with its token, its word and its summary.
pub proof fn lemma_submission_is_handed_on(
    a: Session,
    b: Session,
    token: Token,
    msg: ClientMessage,
    facts: MsgFacts,
    step: MsgStep,
)
    requires
        msg_done(a, b, token, msg, facts, step),
    ensures
        msg is WorkflowSubmit ==> {
            &&& b == a
            &&& step is Submit
            &&& step->kind is Workflow
            &&& step->token == msg->WorkflowSubmit_token
            &&& step->status is Failed <==> msg->failed
            &&& step->status is Done <==> !msg->failed
            &&& step->verdict == msg->WorkflowSubmit_verdict
            &&& step->summary == msg->WorkflowSubmit_summary
            &&& step->artifacts@.len() == 0
        },
        msg is OrchestrationSubmit ==> {
            &&& b == a
            &&& step is Submit
            &&& step->kind == msg->kind
            &&& step->token == msg->OrchestrationSubmit_token
            &&& step->status == msg->status
            &&& step->verdict == msg->OrchestrationSubmit_verdict
            &&& step->summary == msg->OrchestrationSubmit_summary
            &&& step->artifacts == msg->artifacts
        },
        msg is TaskRetitle && trimmed(msg->TaskRetitle_title@).len() > 0 ==> {
            &&& step is RetitleTask
            &&& step->id == msg->id
            &&& step->title@ == trimmed(msg->TaskRetitle_title@)
        },
        msg is SaveTask && trimmed(msg->SaveTask_title@).len() > 0 ==> {
            &&& step is SaveTask
            &&& step->SaveTask_0@ == trimmed(msg->SaveTask_title@)
        },
        msg is SaveTask && trimmed(msg->SaveTask_title@).len() == 0 ==> step is Ignored,
{
}

proof fn lemma_last_resize(msgs: Seq<ClientMessage>, n: nat)
    requires
        n <= msgs.len(),
    ensures
        -1 <= last_resize(msgs, n) < n,
        last_resize(msgs, n) >= 0 ==> msgs[last_resize(msgs, n)] is Resize,
        forall|k: int| last_resize(msgs, n) < k < n ==> !(#[trigger] msgs[k] is Resize),
    decreases n,
{
    if n > 0 {
        lemma_last_resize(msgs, (n - 1) as nat);
    }
}

proof fn lemma_thinned(msgs: Seq<ClientMessage>, last: int, n: nat, k: int)
    requires
        0 <= k < n <= msgs.len(),
        !(msgs[k] is Resize) || k == last,
    ensures
        thinned(msgs, last, n).contains(msgs[k]),
    decreases n,
{
    let rest = thinned(msgs, last, (n - 1) as nat);
    let out = thinned(msgs, last, n);
    if k == n - 1 {
        assert(out[out.len() - 1] == msgs[k]);
    } else {
        lemma_thinned(msgs, last, (n - 1) as nat, k);
        let at = choose|at: int| 0 <= at < rest.len() && rest[at] == msgs[k];
        assert(out[at] == msgs[k]);
    }
}

/// Of the sizes that a client sends in one go the last one counts, and no other
/// message is lost over it.
pub proof fn lemma_last_size_counts(msgs: Seq<ClientMessage>, k: int)
    requires
        0 <= k < msgs.len(),
        msgs[k] is Resize ==> forall|j: int| k < j < msgs.len() ==> !(#[trigger] msgs[j] is Resize),
    ensures
        coalesced(msgs).contains(msgs[k]),
{
    lemma_last_resize(msgs, msgs.len());
    let last = last_resize(msgs, msgs.len());
    if msgs[k] is Resize {
        if last < k {
            assert(!(msgs[k] is Resize));
        }
        if last > k {
            assert(msgs[last] is Resize);
        }
    }
    lemma_thinned(msgs, last, msgs.len(), k);
}

/// A control request is refused for the version, the Workspace that it names,
/// destruction that nobody confirmed, a cursor from the future, and a launch
/// that does not fit its template. Nothing else is refused.
pub proof fn lemma_when_a_request_is_refused(name: Seq<char>, r: ControlRequest, facts: ControlFacts)
    ensures
        ({
            let no = refusal(name, r, facts);
            let here = r.version == facts.version && r.workspace@ == name;
            &&& r.version != facts.version ==> no == Some(ControlError::UnsupportedVersion)
            &&& r.version == facts.version && r.workspace@ != name ==> no == Some(
                ControlError::WorkspaceMismatch,
            )
            &&& here && r.command is ProjectRemove ==> (no is Some <==> !facts.permitted)
            &&& here && r.command is ProjectRemove && !facts.permitted ==> no == Some(
                ControlError::RemovalUnconfirmed,
            )
            &&& here && r.command is AgentStopAll ==> (no is Some <==> !facts.permitted)
            &&& here && r.command is AgentStopAll && !facts.permitted ==> no == Some(
                ControlError::StopUnconfirmed,
            )
            &&& here && r.command is Subscribe ==> (no is Some <==> r.command->after_sequence
                > facts.sequence)
            &&& here && r.command is Subscribe && no is Some ==> no->0 is InvalidCursor
            &&& here && r.command is OrchestrationStart && r.command->OrchestrationStart_kind
                is Workflow ==> (no is Some <==> r.command->template is None)
            &&& here && r.command is OrchestrationStart && r.command->OrchestrationStart_kind
                is Relay ==> (no is Some <==> r.command->template is Some)
            &&& here && !(r.command is ProjectRemove || r.command is AgentStopAll
                || r.command is Subscribe || r.command is OrchestrationStart) ==> no is None
        }),
{
}

/// A refusal has a code for programs and words for people; no two of them say
/// the same.
pub proof fn lemma_refusals_say_why(error: ControlError)
    ensures
        error is UnsupportedVersion ==> error.code_text() == "unsupported_version"@,
        error is WorkspaceMismatch ==> error.code_text() == "workspace_mismatch"@,
        error is RemovalUnconfirmed || error is StopUnconfirmed ==> error.code_text()
            == "confirmation_required"@,
        error is InvalidCursor ==> error.code_text() == "invalid_cursor"@,
        error is TemplateMissing || error is TemplateUnexpected ==> error.code_text()
            == "invalid_orchestration_launch"@,
{
}

/// A renamed Project has the new name without the blanks around it, and nothing
/// else of the Workspace changes; without a name nothing does.
pub proof fn lemma_project_takes_its_name(
    before: WorkspaceState,
    after: WorkspaceState,
    project: ProjectId,
    name: Seq<char>,
    i: int,
    j: int,
)
    requires
        project_renamed(before, after, project, name),
        project_at(before.projects, project) == Some(i),
        0 <= i < before.projects.len(),
        0 <= j < before.projects.len(),
    ensures
        after.projects.len() == before.projects.len(),
        trimmed(name).len() > 0 ==> after.projects[i].name@ == trimmed(name),
        trimmed(name).len() == 0 ==> after == before,
        after.projects[i].id == before.projects[i].id,
        j != i ==> after.projects[j] == before.projects[j],
        after.windows == before.windows,
        after.active_window == before.active_window,
        after.active_project == before.active_project,
{
}

/// A renamed Tab has the new name without the blanks around it, and none where
/// the name is blank; its Panes stay, and so do the other Tabs.
pub proof fn lemma_tab_takes_its_name(
    before: WorkspaceState,
    after: WorkspaceState,
    name: Seq<char>,
    j: int,
)
    requires
        tab_renamed(before, after, name),
        0 <= before.active_window < before.windows.len(),
        0 <= j < before.windows.len(),
    ensures
        after.windows.len() == before.windows.len(),
        after.active_window == before.active_window,
        ({
            let tab = after.windows[before.active_window];
            let was = before.windows[before.active_window];
            &&& trimmed(name).len() > 0 ==> tab.name is Some && tab.name->0@ == trimmed(name)
            &&& trimmed(name).len() == 0 ==> tab.name is None
            &&& tab.layout == was.layout && tab.active == was.active && tab.zoomed == was.zoomed
            &&& tab.project == was.project
        }),
        j != before.active_window ==> after.windows[j] == before.windows[j],
        after.projects == before.projects,
{
}

/// A request is carried out as it is named, and what only looks leaves the
/// Workspace as it is.
pub proof fn lemma_request_is_carried_out(
    before: WorkspaceState,
    after: WorkspaceState,
    command: ControlCommand,
    facts: ControlFacts,
)
    requires
        carried_out(before, after, command, facts),
    ensures
        command is ProjectSwitch ==> after == before.switch_to(command->ProjectSwitch_project),
        command is ProjectMove ==> after == before.move_project(
            command->ProjectMove_project,
            command->towards,
        ),
        command is ProjectRemove && facts.worktree ==> after == before,
        command is ProjectRemove && !facts.worktree && before.removable(
            command->ProjectRemove_project,
        ) ==> after == before.without_project(command->ProjectRemove_project),
        command is AgentFocus && facts.has_agent ==> after == before.focus_on(
            command->AgentFocus_pane,
        ),
        command is AgentStop && facts.has_agent ==> after == before.close(command->AgentStop_pane),
        (command is AgentFocus || command is AgentStop) && !facts.has_agent ==> after == before,
        command is HierarchyFocus && before.ordinal_target(
            command->HierarchyFocus_project,
            command->HierarchyFocus_tab,
            command->ordinal,
        ) is Some ==> after == before.focus_on(
            before.ordinal_target(
                command->HierarchyFocus_project,
                command->HierarchyFocus_tab,
                command->ordinal,
            )->0,
        ),
        command is HierarchyFocus && before.ordinal_target(
            command->HierarchyFocus_project,
            command->HierarchyFocus_tab,
            command->ordinal,
        ) is None ==> after == before,
        command is TabCreate && project_at(before.projects, command->TabCreate_project) is None
            ==> after == before,
        command is TabCreate && project_at(before.projects, command->TabCreate_project) is Some
            && facts.spawned is Some ==> after == before.switch_to(
            command->TabCreate_project,
        ).push(facts.spawned->0),
        command is Capabilities || command is Snapshot || command is PaneRead || command is PaneSend
            || command is Subscribe || command is ProjectCreate || command is AgentLaunch
            || command is AgentStopAll || command is TaskCreate || command is TaskRetitle
            || command is OrchestrationSubmit || command is OrchestrationStart ==> after == before,
{
}

/// An answer says truly what was found and what took place: nothing is accepted
/// that was not found, and it names what the request named.
pub proof fn lemma_answer_says_what_took_place(
    before: WorkspaceState,
    after: WorkspaceState,
    command: ControlCommand,
    facts: ControlFacts,
    runs: Orchestrations,
)
    requires
        before.wf(),
        carried_out(before, after, command, facts),
    ensures
        ({
            let reply = answer(before, after, command, facts, runs);
            let said = reply->0;
            &&& command is ProjectRename ==> {
                &&& reply is Some && said is Mutation
                &&& said->resource is Project
                &&& said->Mutation_id == Some(command->ProjectRename_project.0)
                &&& said->Mutation_found <==> project_at(
                    before.projects,
                    command->ProjectRename_project,
                ) is Some
                &&& said->Mutation_accepted <==> said->Mutation_found && trimmed(
                    command->ProjectRename_name@,
                ).len() > 0
            }
            &&& command is ProjectSwitch ==> {
                &&& reply is Some && said is Mutation
                &&& said->resource is Project
                &&& said->Mutation_id == Some(command->ProjectSwitch_project.0)
                &&& said->Mutation_accepted ==> said->Mutation_found && after.active_project
                    == command->ProjectSwitch_project
            }
            &&& command is ProjectRemove ==> {
                &&& reply is Some && said is Mutation
                &&& said->resource is Project
                &&& said->Mutation_accepted ==> project_at(
                    after.projects,
                    command->ProjectRemove_project,
                ) is None
            }
            &&& command is AgentFocus ==> {
                &&& reply is Some && said is Mutation
                &&& said->resource is Agent
                &&& said->Mutation_id == Some(command->AgentFocus_pane.0)
                &&& said->Mutation_found <==> facts.has_agent
                &&& said->Mutation_accepted ==> said->Mutation_found
            }
            &&& command is AgentStop ==> {
                &&& reply is Some && said is Mutation
                &&& said->resource is Agent
                &&& said->Mutation_id == Some(command->AgentStop_pane.0)
                &&& said->Mutation_found <==> facts.has_agent
                &&& said->Mutation_accepted <==> facts.has_agent
            }
            &&& command is AgentStopAll ==> {
                &&& reply is Some && said is Mutation
                &&& said->resource is Agent
                &&& said->Mutation_found <==> facts.agent_panes@.len() > 0
                &&& said->Mutation_accepted <==> to_stop(before, command, facts).len() > 0
            }
            &&& command is HierarchyFocus ==> {
                &&& reply is Some && said is Mutation
                &&& said->resource is Pane
                &&& said->Mutation_found == said->Mutation_accepted
                &&& said->Mutation_found <==> said->Mutation_id is Some
            }
            &&& command is TabRename ==> {
                &&& reply is Some && said is Mutation
                &&& said->resource is Tab
                &&& said->Mutation_id == Some(command->TabRename_tab as u64)
                &&& said->Mutation_accepted <==> said->Mutation_found && trimmed(
                    command->TabRename_name@,
                ).len() > 0
            }
            &&& command is TaskCreate && trimmed(command->TaskCreate_title@).len() == 0 ==> {
                &&& reply is Some && said is Mutation
                &&& said->resource is Task
                &&& !said->Mutation_accepted
            }
            &&& command is Subscribe ==> {
                &&& reply is Some && said is Subscribed
                &&& said->current_sequence == facts.sequence
            }
            &&& command is OrchestrationSubmit ==> {
                &&& reply is Some && said is Submitted
                &&& command->OrchestrationSubmit_kind is Workflow ==> (said->Submitted_accepted
                    <==> exists|i: int|
                    0 <= i < runs.workflows@.len() && (#[trigger] runs.workflows@[i]).state.token
                        == command->token && runs.workflows@[i].state.phase is Awaiting)
                &&& command->OrchestrationSubmit_kind is Relay ==> (said->Submitted_accepted
                    <==> exists|i: int|
                    0 <= i < runs.relays@.len() && (#[trigger] runs.relays@[i]).state.token
                        == command->token && runs.relays@[i].state.phase is Awaiting)
            }
        }),
{
    let reply = answer(before, after, command, facts, runs);
    match command {
        ControlCommand::OrchestrationSubmit { kind, token } => {
            if runs.awaiting(kind, token) {
                if kind is Workflow {
                    let i = choose|i: int|
                        0 <= i < runs.workflows@.len() && (#[trigger] runs.workflows@[i]).awaits(
                            token,
                        );
                    assert(runs.workflows@[i].state.token == token);
                } else {
                    let i = choose|i: int|
                        0 <= i < runs.relays@.len() && (#[trigger] runs.relays@[i]).awaits(token);
                    assert(runs.relays@[i].state.token == token);
                }
            }
            if kind is Workflow {
                if exists|i: int|
                    0 <= i < runs.workflows@.len() && (#[trigger] runs.workflows@[i]).state.token
                        == token && runs.workflows@[i].state.phase is Awaiting {
                    let i = choose|i: int|
                        0 <= i < runs.workflows@.len() && (
                        #[trigger] runs.workflows@[i]).state.token == token
                            && runs.workflows@[i].state.phase is Awaiting;
                    assert(runs.workflows@[i].awaits(token));
                }
            } else {
                if exists|i: int|
                    0 <= i < runs.relays@.len() && (#[trigger] runs.relays@[i]).state.token == token
                        && runs.relays@[i].state.phase is Awaiting {
                    let i = choose|i: int|
                        0 <= i < runs.relays@.len() && (#[trigger] runs.relays@[i]).state.token
                            == token && runs.relays@[i].state.phase is Awaiting;
                    assert(runs.relays@[i].awaits(token));
                }
            }
        },
        _ => {},
    }
}

/// What was carried out outside is answered as it came back: a launch that made
/// nothing is no launch, and nothing is accepted that was not made.
pub proof fn lemma_outside_work_is_answered(command: ControlCommand, done: OutsideResult)
    ensures
        ({
            let reply = outside_answer(command, done);
            let said = reply->0;
            &&& command is ProjectCreate ==> {
                &&& reply is Some && said is Mutation && said->resource is Project
                &&& said->Mutation_accepted == done.accepted
                &&& done.accepted ==> said->Mutation_id == done.id
                &&& !done.accepted ==> said->Mutation_id is None
            }
            &&& command is AgentLaunch ==> {
                &&& reply is Some && said is Mutation && said->resource is Agent
                &&& said->Mutation_id == done.id && said->Mutation_found == done.found
                &&& said->Mutation_accepted <==> done.id is Some
            }
            &&& command is TaskCreate ==> {
                &&& reply is Some && said is Mutation && said->resource is Task
                &&& said->Mutation_id == done.id
                &&& said->Mutation_accepted <==> done.id is Some
            }
            &&& command is TaskRetitle ==> {
                &&& reply is Some && said is Mutation && said->resource is Task
                &&& said->Mutation_id == Some(command->TaskRetitle_id)
                &&& said->Mutation_found == done.found
                &&& said->Mutation_accepted <==> done.accepted && trimmed(
                    command->TaskRetitle_title@,
                ).len() > 0
            }
            &&& command is WaitingAct ==> {
                &&& reply is Some && said is Mutation && said->resource is Waiting
                &&& said->Mutation_id == Some(command->WaitingAct_id)
                &&& said->Mutation_found == done.found && said->Mutation_accepted == done.accepted
            }
            &&& command is PaneSend ==> {
                &&& reply is Some && said is PaneSent
                &&& said->pane == command->PaneSend_pane
                &&& said->PaneSent_found == done.found
                &&& said->PaneSent_accepted <==> done.found && done.accepted
            }
            &&& command is OrchestrationStart ==> {
                &&& reply is Some
                &&& said is Started <==> done.id is Some
                &&& said is LaunchFailed <==> done.id is None
                &&& done.id is Some ==> said->run == done.id->0
            }
        }),
{
}

/// To stop all agents stops agents alone, and only those in scope.
pub proof fn lemma_only_agents_are_stopped(
    before: WorkspaceState,
    command: ControlCommand,
    facts: ControlFacts,
)
    ensures
        !(command is AgentStopAll) ==> to_stop(before, command, facts).len() == 0,
{
}

/// A client's size counts: the canvas becomes what fits every client that shows
/// the Workspace, everything is painted where that changed, and nothing else of
/// the server does.
pub proof fn lemma_size_of_a_client_counts(
    a: Session,
    b: Session,
    token: Token,
    msg: ClientMessage,
    facts: MsgFacts,
    step: MsgStep,
)
    requires
        msg_done(a, b, token, msg, facts, step),
        msg is Attach || (msg is Resize && !(a.client(token) is Some && a.client(
            token,
        )->0.direct_only)),
    ensures
        b.workspace == a.workspace && b.view == a.view && b.frame == a.frame,
        step is Sized,
        step->Sized_everything <==> b.clients.cols != a.clients.cols || b.clients.rows
            != a.clients.rows,
        msg is Attach ==> b.clients.list@ == attached_list(
            a.clients.list@,
            token,
            msg->Attach_cols,
            msg->Attach_rows,
        ),
        msg is Resize ==> b.clients.list@ == resized_list(
            a.clients.list@,
            token,
            msg->Resize_cols,
            msg->Resize_rows,
        ),
        viewport(b.clients.list@, b.clients.list@.len()) matches Some((w, h)) ==> b.clients.cols
            == w && b.clients.rows == h,
        viewport(b.clients.list@, b.clients.list@.len()) is None ==> b.clients.cols
            == a.clients.cols && b.clients.rows == a.clients.rows,
{
}

/// A client that asks for a Pane is told whether it has it: not where the Pane
/// is missing, and not where another drives it and it would not take over.
pub proof fn lemma_asking_for_a_pane_is_answered(
    a: Session,
    b: Session,
    token: Token,
    pane: PaneId,
    role: PaneAttachRole,
    facts: MsgFacts,
    step: MsgStep,
    j: int,
)
    requires
        msg_done(a, b, token, ClientMessage::PaneAttach { pane, role }, facts, step),
    ensures
        b.workspace == a.workspace && b.view == a.view,
        step is PaneAttached,
        step->outcome is Missing <==> !facts.pane_exists,
        role is Observer && facts.pane_exists ==> step->outcome is Attached,
        role is Takeover && facts.pane_exists ==> step->outcome is Attached,
        !(role is Takeover) && step->outcome is Attached ==> step->outcome->revoked@.len() == 0,
        role is Controller && facts.pane_exists && 0 <= j < a.clients.list@.len()
            && a.clients.list@[j].token != token && a.clients.list@[j].direct is Some
            && a.clients.list@[j].direct->0.pane == pane && !(
        a.clients.list@[j].direct->0.role is Observer) ==> step->outcome is Contested,
{
    let list = a.clients.list@;
    let apart = set_apart(list, token);
    lemma_found_has_its_token(list, token, 0);
    if role is Controller && facts.pane_exists && 0 <= j < list.len() && list[j].token != token
        && list[j].drives(pane) {
        assert(apart[j] == list[j]);
        assert(contested(apart, token, pane));
    }
}

proof fn lemma_found_has_its_token(list: Seq<ClientInfo>, token: Token, from: int)
    ensures
        client_at(list, token, from) matches Some(i) ==> 0 <= i < list.len() && list[i].token
            == token,
    decreases list.len() - from,
{
    if 0 <= from < list.len() {
        lemma_found_has_its_token(list, token, from + 1);
    }
}

/// A client that covers the canvas with a view of its own closes an open menu;
/// that view comes off with a painting of that client alone.
pub proof fn lemma_view_of_a_clients_own(
    a: Session,
    b: Session,
    token: Token,
    on: bool,
    facts: MsgFacts,
    step: MsgStep,
    i: int,
    j: int,
)
    requires
        msg_done(a, b, token, ClientMessage::OverlayVisible { on }, facts, step),
        client_at(a.clients.list@, token, 0) == Some(i),
        0 <= i < a.clients.list@.len(),
        0 <= j < a.clients.list@.len(),
    ensures
        b.workspace == a.workspace,
        b.clients.list@.len() == a.clients.list@.len(),
        b.clients.list@[i].overlay == on,
        b.clients.list@[i].attached == a.clients.list@[i].attached,
        b.clients.list@[i].direct == a.clients.list@[i].direct,
        j != i ==> b.clients.list@[j] == a.clients.list@[j],
        on ==> !b.view.context_menu,
        !on ==> b.view == a.view,
        step is Overlay,
        step->Overlay_everything <==> on && a.view.context_menu,
        step->client <==> !on,
{
}

/// Directories are taken from a client that does not show the Workspace yet, and
/// only where all of them may be searched; else nothing changes.
pub proof fn lemma_directories_of_a_client(
    a: Session,
    b: Session,
    token: Token,
    given: Vec<String>,
    facts: MsgFacts,
    step: MsgStep,
)
    requires
        msg_done(a, b, token, ClientMessage::RemoteEnvironment { search_path: given }, facts, step),
    ensures
        step is Ignored,
        b.workspace == a.workspace && b.clients == a.clients && b.view == a.view,
        a.client(token) is None || a.client(token)->0.attached ==> b == a,
        !acceptable(texts(given@)) ==> b == a,
        a.client(token) is Some && !a.client(token)->0.attached && acceptable(texts(given@)) ==> {
            &&& firsts(texts(given@)).is_prefix_of(texts(b.search_path@))
            &&& forall|e: Seq<char>| #[trigger]
                texts(a.search_path@).contains(e) ==> texts(b.search_path@).contains(e)
        },
{
    if a.client(token) is Some && !a.client(token)->0.attached && acceptable(texts(given@)) {
        crate::search_path::lemma_merge_widens(firsts(texts(given@)), texts(a.search_path@));
    }
}

/// A Tab is looked for by its place, counted from one, and a Pane by its place
/// in the Tab; what is not there is not found.
pub proof fn lemma_tab_is_looked_for_by_its_place(
    s: WorkspaceState,
    project: ProjectId,
    tab: u32,
    pane: Option<u32>,
)
    ensures
        ({
            let tabs = tabs_of(s.windows, project);
            let found = s.ordinal_target(project, tab, pane);
            &&& tab == 0 || tab > tabs.len() ==> found is None
            &&& 1 <= tab <= tabs.len() && pane is None ==> found == Some(
                s.windows[tabs[tab - 1] as int].active,
            )
            &&& 1 <= tab <= tabs.len() && pane is Some && 1 <= pane->0
                <= s.windows[tabs[tab - 1] as int].layout.panes().len() ==> found == Some(
                s.windows[tabs[tab - 1] as int].layout.panes()[pane->0 - 1],
            )
            &&& 1 <= tab <= tabs.len() && pane is Some && (pane->0 == 0 || pane->0
                > s.windows[tabs[tab - 1] as int].layout.panes().len()) ==> found is None
        }),
{
}

/// A refusal tells a person what it was for.
pub proof fn lemma_refusals_tell_a_person(error: ControlError)
    ensures
        error is UnsupportedVersion ==> error.message_text() == "unsupported control API version"@,
        error is WorkspaceMismatch ==> error.message_text()
            == "request does not own this Workspace"@,
        error is InvalidCursor ==> error.message_text()
            == "after_sequence is newer than the Workspace event cursor"@,
        error is TemplateMissing ==> error.message_text() == "workflow launch requires a template"@,
        error is TemplateUnexpected ==> error.message_text()
            == "relay launch does not accept a workflow template"@,
        error is RemovalUnconfirmed ==> error.message_text()
            == "project_remove closes every Pane the Project owns; pass \"confirmed\": true"@,
        error is StopUnconfirmed ==> error.message_text()
            == "agent_stop_all closes every agent Pane in scope; pass \"confirmed\": true"@,
{
}

} // verus!
