//! What the server as a whole can rely on: how processes end, where events go,
//! what a report leads to, what is listed of it, and what it keeps.
use crate::artifact::ArtifactId;
use crate::closing::{toast_elsewhere, Forgotten, PaneClosing};
use crate::commands::{Command, FileTreeChange};
use crate::control::{ControlCommand, ControlFacts};
use crate::detection::{AgentPane, PaneAgent};
use crate::dev_servers::of_other;
use crate::files::{FileAction, FileActionStep, FileTree};
use crate::following::Shift;
use crate::hierarchy::{project_at, window_of, Project, WorkspaceState};
use crate::instruction::{elsewhere, Instruction};
use crate::launch::AgentLaunchSnap;
use crate::listings::PaneLine;
use crate::lists::lemma_filter_holds;
use crate::messages::ClientMessage;
use crate::messaging::{msg_closes, msg_shift, request_closes, request_shift};
use crate::metadata::Note;
use crate::notify::{of_other_pane, PendingNotification};
use crate::observatory::DevServer;
use crate::orchestration::{sooner, ActiveRun, PendingDelivery};
use crate::reaper::RetiringPty;
use crate::records::{
    artifact_listed, detection_of, detections, known_at, listed_artifacts, run_listed, watched_files,
    KnownPane, LedgerEntry, RunRecord,
};
use crate::recovery::{later, resumed_agent, with_saved, SavedNote};
use crate::replies::{
    asked, durability_text, editor_line, reply_done, rollback_question, turn_at, watched_process,
    AgentReply, ReplyFacts, ReplyStep, RuntimeSide,
};
use crate::retiring::{
    has_process, reap_deadline, retiring_at, with_retiring, RetiringEvent, RetiringPane,
};
use crate::run_flow::delivered_elsewhere;
use crate::run_recovery::DurableRun;
use crate::run_record::records;
use crate::server::{first_project_name, framed, positive, shown_hostname, Catalog, Server};
use crate::session::{MsgFacts, Session, Toast};
use crate::settings::Config;
use crate::snapshot::saved_project;
use crate::sources::{pane_source_at, PaneSource, Route, Sources};
use crate::sweeping::without_lost;
use crate::types::{PaneId, ProjectId, Token};
use vstd::prelude::*;

verus! {

/// A Pane that closes asks its process to end and forces it fifteen milliseconds
/// later; what it still prints is read at once and thrown away.
pub proof fn lemma_closed_pane_ends_its_process(now: u64, watched: bool, registered: bool)
    requires
        now <= u64::MAX - 15,
    ensures
        ({
            let pty = RetiringPty::closed_now(now, watched, registered);
            &&& pty.kill_at is Some && pty.kill_at->0 == now + 15
            &&& pty.fallback_at is None
            &&& !pty.child_exited && pty.read_pending
            &&& pty.watched == watched && pty.master_registered == registered
            &&& pty.will_end()
        }),
{
}

/// A closed Pane is looked after at the earlier of its times, and at once while
/// output waits; with nothing to come it is not waited for.
pub proof fn lemma_when_a_closed_pane_is_looked_after(pty: RetiringPty, now: u64)
    ensures
        !pty.read_pending && pty.kill_at is None && pty.fallback_at is None ==> pty.deadline(now)
            is None,
        pty.read_pending ==> pty.deadline(now) is Some && pty.deadline(now)->0 <= now,
        !pty.read_pending && pty.kill_at is Some ==> pty.deadline(now) is Some && pty.deadline(
            now,
        )->0 <= pty.kill_at->0,
        !pty.read_pending && pty.fallback_at is Some ==> pty.deadline(now) is Some && pty.deadline(
            now,
        )->0 <= pty.fallback_at->0,
        pty.will_end() <==> pty.kill_at is Some || pty.child_exited || pty.watched
            || pty.fallback_at is Some,
{
}

/// Every closed Pane is looked after in time: the next time is that of the first
/// of them.
pub proof fn lemma_closed_panes_are_looked_after(list: Seq<RetiringPane>, now: u64, n: nat, k: int)
    requires
        0 <= k < n <= list.len(),
        list[k].pty.deadline(now) is Some,
    ensures
        reap_deadline(list, now, n) is Some,
        reap_deadline(list, now, n)->0 <= list[k].pty.deadline(now)->0,
    decreases n,
{
    if k < n - 1 {
        lemma_closed_panes_are_looked_after(list, now, (n - 1) as nat, k);
    }
}

/// Of two times the earlier counts, and one that is there before one that is
/// not.
pub proof fn lemma_earlier_time_counts(a: Option<u64>, b: Option<u64>)
    ensures
        sooner(a, b) is None <==> a is None && b is None,
        a is Some ==> sooner(a, b)->0 <= a->0,
        b is Some ==> sooner(a, b)->0 <= b->0,
        sooner(a, b) == a || sooner(a, b) == b,
{
}

/// A Pane with a process retires when it closes; one without leaves nothing.
pub proof fn lemma_pane_with_a_process_retires(
    list: Seq<RetiringPane>,
    panes: Seq<PaneSource>,
    pane: PaneId,
    now: u64,
)
    requires
        now <= u64::MAX - 15,
    ensures
        !(exists|i: int| 0 <= i < panes.len() && (#[trigger] panes[i]).pane == pane)
            ==> with_retiring(list, panes, pane, now) == list,
        (exists|i: int| 0 <= i < panes.len() && (#[trigger] panes[i]).pane == pane) ==> {
            let after = with_retiring(list, panes, pane, now);
            &&& after.len() == list.len() + 1
            &&& after.drop_last() == list
            &&& after.last().pane == pane
            &&& after.last().pty.kill_at is Some
            &&& after.last().pty.kill_at->0 == now + 15
        },
{
    if has_process(panes, pane) {
        assert(with_retiring(list, panes, pane, now).drop_last() =~= list);
    }
}

/// An event of a closed Pane: the end of its process where that is watched, and
/// output on its terminal; it is collected at once where it was forced already.
pub proof fn lemma_events_of_a_closed_pane(p: RetiringPane, token: Token)
    ensures
        p.tokens is None ==> p.event(token) is Other,
        p.tokens is Some && p.pty.watched && p.tokens->0.exit == token ==> p.event(token) == (
        RetiringEvent::Exited { pane: p.pane, collect: p.pty.kill_at is None }),
        p.tokens is Some && p.tokens->0.terminal == token && p.tokens->0.exit != token ==> p.event(
            token,
        ) is Readable,
        p.tokens is Some && p.tokens->0.terminal != token && p.tokens->0.exit != token ==> p.event(
            token,
        ) is Other,
{
}

proof fn lemma_retiring_from(list: Seq<RetiringPane>, pane: PaneId, i: int, from: int)
    requires
        0 <= from <= i < list.len(),
        list[i].pane == pane,
        forall|k: int| 0 <= k < i ==> (#[trigger] list[k]).pane != pane,
    ensures
        retiring_at(list, pane, from) == Some(i),
    decreases i - from,
{
    if from < i {
        assert(list[from].pane != pane);
        lemma_retiring_from(list, pane, i, from + 1);
    }
}

/// A closed Pane is found by its id.
pub proof fn lemma_closed_pane_is_found(list: Seq<RetiringPane>, pane: PaneId, i: int)
    requires
        0 <= i < list.len(),
        list[i].pane == pane,
        forall|k: int| 0 <= k < i ==> (#[trigger] list[k]).pane != pane,
    ensures
        retiring_at(list, pane, 0) == Some(i),
{
    lemma_retiring_from(list, pane, i, 0);
}

proof fn lemma_source_from(list: Seq<PaneSource>, i: int, from: int)
    requires
        0 <= from <= i < list.len(),
        forall|k: int| 0 <= k < i ==> (#[trigger] list[k]).token != list[i].token,
    ensures
        pane_source_at(list, list[i].token, from) == Some(i),
    decreases i - from,
{
    if from < i {
        assert(list[from].token != list[i].token);
        lemma_source_from(list, i, from + 1);
    }
}

/// An event goes where its token was given to: the listener, the runtime, a
/// Pane's terminal, and else a watched process or a client.
pub proof fn lemma_event_goes_to_its_owner(s: Sources, token: Token, i: int)
    requires
        s.wf(),
    ensures
        token.0 == 0 ==> s.routed(token) is Listener,
        token.0 == 1 ==> s.routed(token) is Runtime,
        0 <= i < s.panes@.len() && s.panes@[i].token == token ==> s.routed(token) == Route::Pane(
            s.panes@[i].pane,
        ),
{
    if 0 <= i < s.panes@.len() && s.panes@[i].token == token {
        assert(s.drawn(s.panes@[i].token));
        assert forall|k: int| 0 <= k < i implies (#[trigger] s.panes@[k]).token
            != s.panes@[i].token by {
            assert(s.panes@[k].token != s.panes@[i].token && s.panes@[k].pane != s.panes@[i].pane);
        }
        lemma_source_from(s.panes@, i, 0);
    }
}

/// What a key in the file tree leads to: a change goes to the tree's own Project
/// and root, a file is opened by the editor that was chosen, a path is copied,
/// and only an idle key leaves the screen as it is.
pub proof fn lemma_key_in_the_file_tree(tree: FileTree, action: FileAction, step: FileActionStep)
    requires
        tree.acted(action, step),
    ensures
        step.repaint <==> !(action is Idle),
        step.sync_watches <==> !(action is Idle),
        action is Refresh ==> step.refresh == action->Refresh_0,
        !(action is Refresh) ==> step.refresh@.len() == 0,
        step.send is Some <==> action is Mutate || action is Open,
        action is Mutate ==> {
            &&& step.send->0 is Mutate
            &&& step.send->0->Mutate_project == tree.project
            &&& step.send->0->Mutate_root == tree.root
            &&& step.send->0->operation == action->Mutate_0
        },
        action is Open ==> {
            &&& step.send->0 is Open
            &&& step.send->0->Open_project == tree.project
            &&& step.send->0->path == action->path
            &&& step.send->0->command == action->command
        },
        step.clipboard is Some <==> action is Copy,
        action is Copy ==> step.clipboard->0 == action->Copy_0,
{
}

/// The file tree follows the active Project where it is to be seen: after a
/// removal always, else when another became active; it keeps its focus unless a
/// Pane closed under it.
pub proof fn lemma_file_tree_follows(s: Session, before: ProjectId, shift: Shift)
    ensures
        ({
            let change = s.follows(before, shift);
            let seen = s.workspace@.windows.len() > 0 && s.view.observatory_tab is Files
                && s.canvas().right() > 0;
            let other = s.workspace@.active_project != before;
            &&& !seen ==> change is Nothing
            &&& seen && shift is Removed ==> change == (FileTreeChange::Sync { focus: false })
            &&& seen && !other && !(shift is Removed) ==> change is Nothing
            &&& seen && other && shift is Closed ==> change == (FileTreeChange::Sync {
                focus: false,
            })
            &&& seen && other && shift is Activated ==> change == (FileTreeChange::Sync {
                focus: s.view.files_focused,
            })
        }),
{
}

/// New settings reach the screen: each sidebar is shown or hidden as it is set,
/// with its width, and files that are no longer to be seen lose the focus.
pub proof fn lemma_settings_reach_the_screen(s: Session, config: Config)
    ensures
        ({
            let after = s.reframed(config);
            &&& after.view.sidebar == config.sidebar
            &&& after.view.file_sidebar == config.file_sidebar
            &&& after.frame.sidebar_width == config.sidebar_width
            &&& after.frame.file_sidebar_width == config.file_sidebar_width
            &&& after.frame.status == config.status
            &&& after.frame.status_top == config.status_top
            &&& after.view.files_focused ==> s.view.files_focused && after.files_visible()
            &&& after.workspace == s.workspace && after.clients == s.clients
            &&& after.view.observatory_tab == s.view.observatory_tab
        }),
        framed(config, s.frame.cols, s.frame.rows).cols == s.frame.cols,
        framed(config, s.frame.cols, s.frame.rows).rows == s.frame.rows,
{
}

/// A toast goes with its Pane, and one about another Pane stays.
pub proof fn lemma_toast_goes_with_its_pane(toast: Toast, pane: PaneId)
    ensures
        toast.pane == pane ==> toast_elsewhere(Some(toast), pane) is None,
        toast.pane != pane ==> toast_elsewhere(Some(toast), pane) == Some(toast),
        toast_elsewhere(None, pane) is None,
{
}

/// The notes of a Project that is gone are forgotten, and those of one that is
/// still there stay.
pub proof fn lemma_notes_go_with_their_project(
    notes: Map<(u64, Seq<char>), Note>,
    before: Seq<ProjectId>,
    projects: Seq<Project>,
    n: nat,
    slot: (u64, Seq<char>),
)
    requires
        n <= before.len(),
    ensures
        without_lost(notes, before, projects, n).dom().contains(slot)
            <==> notes.dom().contains(slot)
            && forall|k: int|
            0 <= k < n && project_at(projects, #[trigger] before[k]) is None ==> before[k].0
                != slot.0,
        without_lost(notes, before, projects, n).dom().contains(slot) ==> without_lost(
            notes,
            before,
            projects,
            n,
        )[slot] == notes[slot],
    decreases n,
{
    if n > 0 {
        lemma_notes_go_with_their_project(notes, before, projects, (n - 1) as nat, slot);
        if project_at(projects, before[n - 1]) is None {
            assert(before[n - 1].0 == slot.0 || before[n - 1].0 != slot.0);
        }
    }
}

/// A report about a Pane that is gone changes nothing of it; only the process of
/// an agent that was found there is still watched.
pub proof fn lemma_report_of_a_pane_that_is_gone(
    a: RuntimeSide,
    b: RuntimeSide,
    reply: AgentReply,
    facts: ReplyFacts,
    step: ReplyStep,
)
    requires
        reply_done(a, b, reply, facts, step),
        reply is SetStatus || reply is InjectText || reply is Detected || reply is ServersDetected,
        !facts.pane_exists,
    ensures
        b == a,
        reply is SetStatus || reply is InjectText || reply is ServersDetected ==> step is Nothing,
        reply is Detected && step is WatchProcess ==> {
            &&& reply->found.agent is Some
            &&& reply->found.foreground_pid == Some(step->pid)
        },
        reply is Detected ==> step is WatchProcess || step is Nothing,
{
}

/// A report about a Pane that is there is handed on as it came.
pub proof fn lemma_report_of_a_pane(
    a: RuntimeSide,
    b: RuntimeSide,
    reply: AgentReply,
    facts: ReplyFacts,
    step: ReplyStep,
)
    requires
        reply_done(a, b, reply, facts, step),
        facts.pane_exists,
    ensures
        reply is SetStatus ==> b == a && step == (ReplyStep::ApplyStatus {
            pane: reply->SetStatus_pane,
            status: reply->status,
        }),
        reply is InjectText ==> b == a && step == (ReplyStep::Inject {
            pane: reply->InjectText_pane,
            text: reply->text,
        }),
        reply is Detected ==> {
            &&& b == a
            &&& step is ApplyVerdict
            &&& step->ApplyVerdict_pane == reply->Detected_pane
            &&& step->found == reply->found
            &&& reply->found.agent is Some ==> step->watch == reply->found.foreground_pid
            &&& reply->found.agent is None ==> step->watch is None
        },
        reply is Question ==> b == a && step == (ReplyStep::Ask {
            pane: reply->Question_pane,
            summary: reply->summary,
        }),
{
}

/// A process is watched for an agent alone.
pub proof fn lemma_process_of_an_agent_is_watched(found: crate::detection::Verdict)
    ensures
        found.agent is None ==> watched_process(found) is None,
        found.agent is Some ==> watched_process(found) == found.foreground_pid,
{
}

/// An editor is set when it was tried and worked, and not before; a failure is
/// told to the client that asked.
pub proof fn lemma_editor_is_set_when_it_worked(
    a: RuntimeSide,
    b: RuntimeSide,
    reply: AgentReply,
    facts: ReplyFacts,
    step: ReplyStep,
)
    requires
        reply_done(a, b, reply, facts, step),
        reply is EditorValidated,
    ensures
        reply->EditorValidated_error is Some ==> b == a && step == (ReplyStep::AnswerSettings {
            client: reply->EditorValidated_client,
            error: reply->EditorValidated_error,
        }),
        reply->EditorValidated_error is None ==> {
            &&& b.config.editor == reply->editor
            &&& b.config.editor_rules == reply->editor_rules
            &&& b.config.theme == a.config.theme
            &&& b.runs == a.runs && b.servers == a.servers
            &&& step == (ReplyStep::SaveConfig { client: reply->EditorValidated_client })
        },
{
}

/// A file is opened for the Project that is shown and active, with its path
/// quoted behind the editor; the shell follows.
pub proof fn lemma_file_is_opened_for_its_project(
    a: RuntimeSide,
    b: RuntimeSide,
    reply: AgentReply,
    facts: ReplyFacts,
    step: ReplyStep,
)
    requires
        reply_done(a, b, reply, facts, step),
        reply is EditorResolved,
    ensures
        b == a,
        reply->EditorResolved_project != facts.files_project || reply->EditorResolved_project
            != facts.active_project ==> step is Nothing,
        reply->EditorResolved_project == facts.files_project && reply->EditorResolved_project
            == facts.active_project ==> {
            &&& step is EditorFailed <==> reply->EditorResolved_error is Some
            &&& step is OpenEditor <==> reply->EditorResolved_error is None
        },
        forall|command: Seq<char>, path: Seq<char>, program: Seq<char>|
            #[trigger] editor_line(command, path, program) == command + " -- "@
                + crate::launch::quoted(path) + "; exec "@ + crate::launch::quoted(program),
{
}

/// A question whose files could not be restored is asked again with the reason,
/// and one whose files were lets the run go on.
pub proof fn lemma_restored_files_let_the_run_go_on(
    a: RuntimeSide,
    b: RuntimeSide,
    reply: AgentReply,
    facts: ReplyFacts,
    step: ReplyStep,
)
    requires
        reply_done(a, b, reply, facts, step),
        reply is CheckpointRestored,
    ensures
        b == a,
        reply->CheckpointRestored_error is Some ==> {
            &&& step is AskAgain
            &&& step->AskAgain_waiting == reply->waiting
            &&& step->question@ == "checkpoint rollback failed: "@
                + reply->CheckpointRestored_error->0@
        },
        reply->CheckpointRestored_error is None ==> step == (ReplyStep::Resume {
            waiting: reply->waiting,
            task_id: reply->CheckpointRestored_task_id,
            restored: reply->restored,
        }),
        forall|why: Seq<char>| #[trigger]
            rollback_question(why) == "checkpoint rollback failed: "@ + why,
{
}

/// A failure to keep things is shown once, in words that say what failed, where
/// and why.
pub proof fn lemma_failure_is_shown_once(
    a: RuntimeSide,
    b: RuntimeSide,
    reply: AgentReply,
    facts: ReplyFacts,
    step: ReplyStep,
)
    requires
        reply_done(a, b, reply, facts, step),
        reply is DurabilityError,
    ensures
        ({
            let text = reply->DurabilityError_operation@ + " failed for Workspace "@
                + reply->workspace@ + ": "@ + reply->reason@;
            &&& b.durability_error is Some && b.durability_error->0@ == text
            &&& step is Nothing <==> a.durability_error is Some && a.durability_error->0@ == text
            &&& !(step is Nothing) ==> step is ShowDurabilityError
            &&& b.runs == a.runs && b.config == a.config
        }),
        forall|w: Seq<char>, o: Seq<char>, r: Seq<char>|
            #[trigger] durability_text(w, o, r) == o + " failed for Workspace "@ + w + ": "@ + r,
{
}

/// What was seen of the files counts where they are shown, and only for the
/// Project whose they are.
pub proof fn lemma_news_of_files(
    a: RuntimeSide,
    b: RuntimeSide,
    reply: AgentReply,
    facts: ReplyFacts,
    step: ReplyStep,
)
    requires
        reply_done(a, b, reply, facts, step),
        reply is FilesListed || reply is FileChanged || reply is FileMutated
            || reply is GitCounted,
    ensures
        b == a,
        !facts.files_visible ==> step is Nothing,
        facts.files_visible && reply is FilesListed ==> (step is WatchFiles
            <==> reply->FilesListed_taken),
        facts.files_visible && reply is FileChanged ==> (step is ListFiles
            <==> reply->FileChanged_project == facts.files_project),
        facts.files_visible && reply is FileMutated ==> (step is ListFiles
            <==> reply->FileMutated_taken),
        facts.files_visible && reply is GitCounted ==> step == (ReplyStep::TakeGitCounts {
            project: reply->GitCounted_project,
        }),
{
}

/// An artifact that is being looked at is not looked at twice at once: it is
/// noted, and looked at once more.
pub proof fn lemma_artifact_looked_at_once(
    pending: Seq<ArtifactId>,
    dirty: Seq<ArtifactId>,
    ids: Seq<ArtifactId>,
    n: nat,
)
    requires
        n < ids.len(),
    ensures
        ({
            let (p, d, sent) = asked(pending, dirty, ids, n);
            let (p2, d2, sent2) = asked(pending, dirty, ids, n + 1);
            let id = ids[n as int];
            &&& !p.contains(id) ==> p2 == p.push(id) && d2 == d && sent2 == sent.push(id)
            &&& p.contains(id) ==> p2 == p && sent2 == sent
            &&& p.contains(id) && !d.contains(id) ==> d2 == d.push(id)
            &&& p.contains(id) && d.contains(id) ==> d2 == d
        }),
        asked(pending, dirty, ids, 0).0 == pending,
        asked(pending, dirty, ids, 0).2.len() == 0,
{
}

/// The turn that a checkpoint was made for is found by its task and its token.
pub proof fn lemma_turn_is_found(list: Seq<ActiveRun>, task: u64, token: u64, i: int, from: int)
    requires
        0 <= from <= i < list.len(),
        list[i].task_id == task,
        list[i].state.token == token,
        forall|k: int|
            0 <= k < i ==> !((#[trigger] list[k]).task_id == task && list[k].state.token == token),
    ensures
        turn_at(list, task, token, from) == Some(i),
    decreases i - from,
{
    if from < i {
        assert(!(list[from].task_id == task && list[from].state.token == token));
        lemma_turn_is_found(list, task, token, i, from + 1);
    }
}

/// The focus of the active Project is kept with it; the others keep theirs.
pub proof fn lemma_focus_is_kept(s: WorkspaceState, p: Project)
    ensures
        p.id == s.active_project ==> saved_project(s, p).active_pane == Some(
            s.windows[s.active_window].active,
        ),
        p.id != s.active_project ==> saved_project(s, p) == p,
        saved_project(s, p).name == p.name && saved_project(s, p).root == p.root,
        saved_project(s, p).id == p.id,
{
}

/// What is kept of a run is the run: its turn, its goal, its roles with their
/// Panes and providers, its limits and its start.
pub proof fn lemma_kept_run_is_the_run(d: DurableRun, run: ActiveRun, i: int)
    requires
        records(d, run),
        0 <= i < run.roles@.len(),
    ensures
        d.kind == run.kind && d.task_id == run.task_id && d.state == run.state,
        d.goal == run.goal,
        d.roles@.len() == run.roles@.len(),
        d.roles@[i].name@ == run.roles@[i].name@,
        d.roles@[i].verifier == run.roles@[i].verifier,
        d.role_panes@ == run.role_panes@ && d.started@ == run.started@,
        d.started_at_ms == run.started_at_ms && d.limits == run.guard_limits,
        d.elapsed_triggered == run.elapsed_guard_triggered,
        run.kind is Workflow ==> d.template == run.template,
{
    assert(crate::run_record::same_role(d.roles@[i], run.roles@[i]));
}

/// What is told of the agent in a Pane: the one that runs, else the one that
/// left last, else that none was seen.
pub proof fn lemma_what_is_told_of_an_agent(line: PaneLine, state: AgentPane)
    ensures
        ({
            let said = detection_of(line, state);
            &&& said.pane == line.id && said.project == line.project && said.tab == line.tab
            &&& state.agent is Some ==> {
                &&& said.agent == Some(state.agent->0.id)
                &&& said.status == state.agent->0.status
                &&& said.authority == state.agent->0.authority
                &&& said.evidence == state.agent->0.evidence@
                &&& said.foreground_pid == state.agent->0.foreground_pid
                &&& said.provenance == state.agent->0.provenance
            }
            &&& state.agent is None && state.last_detection is Some ==> {
                &&& said.agent == Some(state.last_detection->0.agent)
                &&& said.status == state.last_detection->0.status
                &&& said.authority == state.last_detection->0.authority
            }
            &&& state.agent is None && state.last_detection is None ==> {
                &&& said.agent is None
                &&& said.status is Unknown
                &&& said.foreground_pid == state.foreground_pid
            }
        }),
{
}

proof fn lemma_known_from(panes: Seq<KnownPane>, pane: PaneId, i: int, from: int)
    requires
        0 <= from <= i < panes.len(),
        panes[i].id == pane,
        forall|k: int| 0 <= k < i ==> (#[trigger] panes[k]).id != pane,
    ensures
        known_at(panes, pane, from) == Some(i),
    decreases i - from,
{
    if from < i {
        assert(panes[from].id != pane);
        lemma_known_from(panes, pane, i, from + 1);
    }
}

/// An instruction is listed while its Pane is shown, with its text and the agent
/// that it is for.
pub proof fn lemma_instruction_is_listed(
    s: WorkspaceState,
    item: Instruction,
    panes: Seq<KnownPane>,
    w: int,
    p: int,
    i: int,
)
    requires
        window_of(s.windows, item.pane) == Some(w),
        project_at(s.projects, s.windows[w].project) == Some(p),
        0 <= i < panes.len(),
        panes[i].id == item.pane,
        forall|k: int| 0 <= k < i ==> (#[trigger] panes[k]).id != item.pane,
    ensures
        ({
            let entry = s.instruction_entry(item, panes);
            &&& entry is Some
            &&& entry->0.id == item.id && entry->0.pane == item.pane
            &&& entry->0.text == item.text && entry->0.author == item.author
            &&& entry->0.invocation == item.invocation
            &&& entry->0.project == s.projects[p].id
            &&& entry->0.project_name == s.projects[p].name
            &&& panes[i].state.agent is Some ==> entry->0.agent == Some(panes[i].state.agent->0.id)
            &&& panes[i].state.agent is None ==> entry->0.agent is None
        }),
{
    lemma_known_from(panes, item.pane, i, 0);
}

/// Which runs are listed: those of the Project that was asked for, and the
/// active ones alone where that was asked.
pub proof fn lemma_which_runs_are_listed(
    run: RunRecord,
    project: Option<ProjectId>,
    active_only: bool,
)
    ensures
        run_listed(run, project, active_only) <==> (project is None || run.project == project->0)
            && (!active_only || run.status is Active),
{
}

proof fn lemma_listed_artifact_upto(
    ledger: Seq<LedgerEntry>,
    project: Option<ProjectId>,
    run: Option<u64>,
    all: bool,
    n: nat,
    k: int,
)
    requires
        0 <= k < n <= ledger.len(),
        artifact_listed(ledger[k], project, run, all),
    ensures
        listed_artifacts(ledger, project, run, all, n).contains(ledger[k].id),
    decreases n,
{
    let out = listed_artifacts(ledger, project, run, all, n);
    let rest = listed_artifacts(ledger, project, run, all, (n - 1) as nat);
    if k == n - 1 {
        assert(out[out.len() - 1] == ledger[k].id);
    } else {
        lemma_listed_artifact_upto(ledger, project, run, all, (n - 1) as nat, k);
        let at = choose|at: int| 0 <= at < rest.len() && rest[at] == ledger[k].id;
        assert(out[at] == ledger[k].id);
    }
}

/// Which artifacts are listed: those of the Project and the run that were asked
/// for; a superseded one only where that was asked.
pub proof fn lemma_which_artifacts_are_listed(
    ledger: Seq<LedgerEntry>,
    project: Option<ProjectId>,
    run: Option<u64>,
    all: bool,
    k: int,
)
    requires
        0 <= k < ledger.len(),
    ensures
        artifact_listed(ledger[k], project, run, all) <==> (project is None || ledger[k].project
            == project->0) && (run is None || ledger[k].run == run->0) && (all || !(
        ledger[k].status is Superseded)),
        artifact_listed(ledger[k], project, run, all) ==> listed_artifacts(
            ledger,
            project,
            run,
            all,
            ledger.len(),
        ).contains(ledger[k].id),
{
    if artifact_listed(ledger[k], project, run, all) {
        lemma_listed_artifact_upto(ledger, project, run, all, ledger.len(), k);
    }
}

/// The files of a Project's artifacts are watched, but for those that were
/// superseded.
pub proof fn lemma_files_of_artifacts_are_watched(
    ledger: Seq<LedgerEntry>,
    project: ProjectId,
    n: nat,
    k: int,
)
    requires
        0 <= k < n <= ledger.len(),
        ledger[k].project == project,
        !(ledger[k].status is Superseded),
    ensures
        exists|at: int|
            0 <= at < watched_files(ledger, project, n).len() && (#[trigger] watched_files(
                ledger,
                project,
                n,
            )[at]).artifact == ledger[k].id && watched_files(ledger, project, n)[at].path
                == ledger[k].path,
    decreases n,
{
    let out = watched_files(ledger, project, n);
    let rest = watched_files(ledger, project, (n - 1) as nat);
    if k == n - 1 {
        assert(out[out.len() - 1].artifact == ledger[k].id);
    } else {
        lemma_files_of_artifacts_are_watched(ledger, project, (n - 1) as nat, k);
        let at = choose|at: int|
            0 <= at < rest.len() && (#[trigger] rest[at]).artifact == ledger[k].id && rest[at].path
                == ledger[k].path;
        assert(out[at] == rest[at]);
    }
}

/// A machine without a name that can be shown goes by a common one, and so does
/// a first Project without a folder's name.
pub proof fn lemma_names_that_are_missing(found: Seq<char>, folder: String)
    ensures
        shown_hostname(None) == "localhost"@,
        crate::chrome_text::sanitized(found, 255).len() == 0 ==> shown_hostname(Some(found))
            == "localhost"@,
        crate::chrome_text::sanitized(found, 255).len() > 0 ==> shown_hostname(Some(found))
            == crate::chrome_text::sanitized(found, 255),
        first_project_name(None) == "Default"@,
        folder@.len() == 0 ==> first_project_name(Some(folder)) == "Default"@,
        folder@.len() > 0 ==> first_project_name(Some(folder)) == folder@,
        positive(0) == 1,
        forall|n: u16| n > 0 ==> #[trigger] positive(n) == n,
{
}

/// The catalog takes a line that is new while it is switched on, and no line
/// twice in a row.
pub proof fn lemma_catalog_takes_a_new_line(c: Catalog, line: Option<String>)
    ensures
        !c.enabled || line is None ==> !c.takes(line),
        c.enabled && line is Some && c.last_line is None ==> c.takes(line),
        c.enabled && line is Some && c.last_line is Some ==> (c.takes(line) <==> c.last_line->0@
            != line->0@),
        c.takes(line) ==> !(Catalog { last_line: line, ..c }).takes(line),
{
}

/// A command that closes takes the focused Pane, or all Panes of the shown Tab;
/// no other command closes any.
pub proof fn lemma_what_a_command_closes(s: WorkspaceState, cmd: Command)
    ensures
        cmd is KillPane ==> s.killed(cmd) == seq![s.windows[s.active_window].active],
        cmd is KillWindow ==> s.killed(cmd) == s.windows[s.active_window].layout.panes(),
        !(cmd is KillPane || cmd is KillWindow) ==> s.killed(cmd).len() == 0,
        cmd.kills() <==> cmd is KillPane || cmd is KillWindow,
{
}

/// A message and a control request close the Pane of an agent that is stopped,
/// and the Panes of a Project that may be removed; nothing else is closed.
pub proof fn lemma_what_a_request_closes(
    s: WorkspaceState,
    msg: ClientMessage,
    facts: MsgFacts,
    command: ControlCommand,
    given: ControlFacts,
)
    ensures
        msg is AgentStop && facts.has_agent ==> msg_closes(s, msg, facts) == seq![
            msg->AgentStop_pane,
        ] && msg_shift(s, msg, facts) is Closed,
        msg is AgentStop && !facts.has_agent ==> msg_closes(s, msg, facts).len() == 0,
        msg is ProjectRemove && !(facts.permitted && !facts.worktree) ==> msg_closes(
            s,
            msg,
            facts,
        ).len() == 0 && msg_shift(s, msg, facts) is Activated,
        msg is ProjectRemove && facts.permitted && !facts.worktree && s.removable(
            msg->ProjectRemove_project,
        ) ==> msg_closes(s, msg, facts) == crate::projects::project_panes(
            s.windows,
            msg->ProjectRemove_project,
        ) && msg_shift(s, msg, facts) is Removed,
        !(msg is AgentStop || msg is ProjectRemove) ==> msg_closes(s, msg, facts).len() == 0
            && msg_shift(s, msg, facts) is Activated,
        command is AgentStop && given.has_agent ==> request_closes(s, command, given) == seq![
            command->AgentStop_pane,
        ] && request_shift(s, command, given) is Closed,
        command is ProjectRemove && given.worktree ==> request_closes(s, command, given).len() == 0,
        command is ProjectRemove && !given.worktree && s.removable(
            command->ProjectRemove_project,
        ) ==> request_closes(s, command, given) == crate::projects::project_panes(
            s.windows,
            command->ProjectRemove_project,
        ) && request_shift(s, command, given) is Removed,
        !(command is AgentStop || command is ProjectRemove) ==> request_closes(
            s,
            command,
            given,
        ).len() == 0,
{
}

/// The next id after a restart is the later of the two, so that none is given
/// twice.
pub proof fn lemma_later_id_counts(a: u64, b: u64)
    ensures
        later(a, b) >= a,
        later(a, b) >= b,
        later(a, b) == a || later(a, b) == b,
{
}

/// An agent whose session was taken up is bound as a launch is: as starting, by
/// its provider, with the session that it had.
pub proof fn lemma_taken_up_agent_is_bound(
    agent: PaneAgent,
    launch: AgentLaunchSnap,
    foreground: Option<i32>,
    now: u64,
    timestamp_ms: u64,
)
    requires
        resumed_agent(agent, launch, foreground, now, timestamp_ms),
    ensures
        agent.id@ == launch.provider@,
        agent.status is Starting,
        agent.authority is Process,
        agent.foreground_pid == foreground,
        agent.started_at == now,
        agent.session_id == launch.session_id,
        agent.resume_command is Some <==> launch.resume_command@.len() > 0,
        agent.resume_command is Some ==> agent.resume_command->0 == launch.resume_command,
{
}

/// Notes that were kept come back for good, the last of a key counting, and the
/// notes of others stay.
pub proof fn lemma_kept_notes_come_back(
    notes: Map<(u64, Seq<char>), Note>,
    owner: u64,
    saved: Seq<SavedNote>,
    n: nat,
    k: int,
    slot: (u64, Seq<char>),
)
    requires
        0 <= k < n <= saved.len(),
        forall|j: int| k < j < n ==> (#[trigger] saved[j]).key@ != saved[k].key@,
    ensures
        with_saved(notes, owner, saved, n).dom().contains((owner, saved[k].key@)),
        with_saved(notes, owner, saved, n)[(owner, saved[k].key@)].value == saved[k].value@,
        with_saved(notes, owner, saved, n)[(owner, saved[k].key@)].expires is None,
        slot.0 != owner ==> (with_saved(notes, owner, saved, n).dom().contains(slot)
            <==> notes.dom().contains(slot)),
    decreases n,
{
    if k < n - 1 {
        assert(saved[n - 1].key@ != saved[k].key@);
        lemma_kept_notes_come_back(notes, owner, saved, (n - 1) as nat, k, slot);
    } else {
        lemma_others_notes_stay(notes, owner, saved, (n - 1) as nat, slot);
    }
}

proof fn lemma_others_notes_stay(
    notes: Map<(u64, Seq<char>), Note>,
    owner: u64,
    saved: Seq<SavedNote>,
    n: nat,
    slot: (u64, Seq<char>),
)
    requires
        n <= saved.len(),
    ensures
        slot.0 != owner ==> (with_saved(notes, owner, saved, n).dom().contains(slot)
            <==> notes.dom().contains(slot)),
    decreases n,
{
    if n > 0 {
        lemma_others_notes_stay(notes, owner, saved, (n - 1) as nat, slot);
    }
}

proof fn lemma_told_upto(
    lines: Seq<PaneLine>,
    panes: Seq<KnownPane>,
    wanted: Option<PaneId>,
    n: nat,
    k: int,
    i: int,
)
    requires
        0 <= k < n <= lines.len(),
        wanted is None || wanted == Some(lines[k].id),
        known_at(panes, lines[k].id, 0) == Some(i),
    ensures
        detections(lines, panes, wanted, n).contains(detection_of(lines[k], panes[i].state)),
    decreases n,
{
    let out = detections(lines, panes, wanted, n);
    let rest = detections(lines, panes, wanted, (n - 1) as nat);
    let told = detection_of(lines[k], panes[i].state);
    if k == n - 1 {
        assert(out[out.len() - 1] == told);
    } else {
        lemma_told_upto(lines, panes, wanted, (n - 1) as nat, k, i);
        let at = choose|at: int| 0 <= at < rest.len() && rest[at] == told;
        assert(out[at] == told);
    }
}

proof fn lemma_told_only(
    lines: Seq<PaneLine>,
    panes: Seq<KnownPane>,
    wanted: Option<PaneId>,
    n: nat,
    at: int,
)
    requires
        n <= lines.len(),
        0 <= at < detections(lines, panes, wanted, n).len(),
    ensures
        ({
            let told = detections(lines, panes, wanted, n)[at];
            &&& wanted is None || wanted == Some(told.pane)
            &&& exists|k: int| 0 <= k < n && (#[trigger] lines[k]).id == told.pane
        }),
    decreases n,
{
    let out = detections(lines, panes, wanted, n);
    if n > 0 {
        let rest = detections(lines, panes, wanted, (n - 1) as nat);
        if at < rest.len() {
            lemma_told_only(lines, panes, wanted, (n - 1) as nat, at);
            assert(out[at] == rest[at]);
            let k = choose|k: int| 0 <= k < n - 1 && (#[trigger] lines[k]).id == out[at].pane;
            assert(lines[k].id == out[at].pane);
        } else {
            assert(out[at].pane == lines[n - 1].id);
        }
    }
}

/// Every known Pane that was asked about is told of, and no other.
pub proof fn lemma_which_panes_are_told_of(
    lines: Seq<PaneLine>,
    panes: Seq<KnownPane>,
    wanted: Option<PaneId>,
    k: int,
    i: int,
    at: int,
)
    ensures
        ({
            let out = detections(lines, panes, wanted, lines.len());
            &&& 0 <= k < lines.len() && (wanted is None || wanted == Some(lines[k].id)) && 0 <= i
                < panes.len() && panes[i].id == lines[k].id && (forall|j: int|
                0 <= j < i ==> (#[trigger] panes[j]).id != lines[k].id) ==> out.contains(
                detection_of(lines[k], panes[i].state),
            )
            &&& 0 <= at < out.len() ==> (wanted is None || wanted == Some(out[at].pane)) && exists|
                j: int,
            |
                0 <= j < lines.len() && (#[trigger] lines[j]).id == out[at].pane
        }),
{
    if 0 <= k < lines.len() && (wanted is None || wanted == Some(lines[k].id)) && 0 <= i
        < panes.len() && panes[i].id == lines[k].id && (forall|j: int|
        0 <= j < i ==> (#[trigger] panes[j]).id != lines[k].id) {
        lemma_known_from(panes, lines[k].id, i, 0);
        lemma_told_upto(lines, panes, wanted, lines.len(), k, i);
    }
    if 0 <= at < detections(lines, panes, wanted, lines.len()).len() {
        lemma_told_only(lines, panes, wanted, lines.len(), at);
    }
}

/// The instructions are listed in the order in which they wait, each that stands
/// in a shown Pane and none twice.
pub proof fn lemma_every_instruction_is_listed(
    s: WorkspaceState,
    items: Seq<Instruction>,
    panes: Seq<KnownPane>,
    n: nat,
    k: int,
)
    requires
        0 <= k < n <= items.len(),
    ensures
        s.instruction_entries(items, panes, n).len() <= n,
        s.instruction_entry(items[k], panes) is Some ==> s.instruction_entries(
            items,
            panes,
            n,
        ).contains(s.instruction_entry(items[k], panes)->0),
    decreases n,
{
    let out = s.instruction_entries(items, panes, n);
    let rest = s.instruction_entries(items, panes, (n - 1) as nat);
    if n == 1 {
        assert(rest.len() == 0);
    }
    if k == n - 1 {
        if n > 1 {
            lemma_every_instruction_is_listed(s, items, panes, (n - 1) as nat, 0);
        }
        if s.instruction_entry(items[k], panes) is Some {
            assert(out[out.len() - 1] == s.instruction_entry(items[k], panes)->0);
        }
    } else {
        lemma_every_instruction_is_listed(s, items, panes, (n - 1) as nat, k);
        if s.instruction_entry(items[k], panes) is Some {
            let entry = s.instruction_entry(items[k], panes)->0;
            let at = choose|at: int| 0 <= at < rest.len() && rest[at] == entry;
            assert(out[at] == entry);
        }
    }
}

proof fn lemma_watched_upto(s: WorkspaceState, ledger: Seq<LedgerEntry>, n: nat, p: int)
    requires
        0 <= p < n <= s.projects.len(),
        watched_files(ledger, s.projects[p].id, ledger.len()).len() > 0,
    ensures
        s.artifact_watches(ledger, n).contains(
            (
                s.projects[p].id,
                s.projects[p].root,
                watched_files(ledger, s.projects[p].id, ledger.len()),
            ),
        ),
    decreases n,
{
    let out = s.artifact_watches(ledger, n);
    let rest = s.artifact_watches(ledger, (n - 1) as nat);
    let entry = (
        s.projects[p].id,
        s.projects[p].root,
        watched_files(ledger, s.projects[p].id, ledger.len()),
    );
    if p == n - 1 {
        assert(out[out.len() - 1] == entry);
    } else {
        lemma_watched_upto(s, ledger, (n - 1) as nat, p);
        let at = choose|at: int| 0 <= at < rest.len() && rest[at] == entry;
        assert(out[at] == entry);
    }
}

/// A Project with a live artifact has its files watched under its own root.
pub proof fn lemma_project_with_artifacts_is_watched(
    s: WorkspaceState,
    ledger: Seq<LedgerEntry>,
    p: int,
    k: int,
)
    requires
        0 <= p < s.projects.len(),
        0 <= k < ledger.len(),
        ledger[k].project == s.projects[p].id,
        !(ledger[k].status is Superseded),
    ensures
        exists|at: int|
            0 <= at < s.artifact_watches(ledger, s.projects.len()).len() && (
            #[trigger] s.artifact_watches(ledger, s.projects.len())[at]).0 == s.projects[p].id
                && s.artifact_watches(ledger, s.projects.len())[at].1 == s.projects[p].root,
{
    lemma_files_of_artifacts_are_watched(ledger, s.projects[p].id, ledger.len(), k);
    lemma_watched_upto(s, ledger, s.projects.len(), p);
    let out = s.artifact_watches(ledger, s.projects.len());
    let entry = (
        s.projects[p].id,
        s.projects[p].root,
        watched_files(ledger, s.projects[p].id, ledger.len()),
    );
    let at = choose|at: int| 0 <= at < out.len() && out[at] == entry;
    assert(out[at].0 == s.projects[p].id);
}

/// A Pane that is forgotten takes with it what was queued or noted for it, and
/// nothing of any other Pane.
pub proof fn lemma_forgotten_pane_takes_its_own(
    before: Server,
    after: Server,
    pane: PaneId,
    now: u64,
    dropped: Forgotten,
    item: Instruction,
    notice: PendingNotification,
    delivery: PendingDelivery,
    server: DevServer,
    source: PaneSource,
    slot: (u64, Seq<char>),
)
    requires
        before.forgot(after, pane, now, dropped),
    ensures
        after.instructions.items@.contains(item) <==> before.instructions.items@.contains(item)
            && item.pane != pane,
        after.notifications.pending@.contains(notice) <==> before.notifications.pending@.contains(
            notice,
        ) && notice.pane != pane,
        after.runtime.runs.deliveries@.contains(delivery)
            <==> before.runtime.runs.deliveries@.contains(delivery) && delivery.pane != pane,
        after.runtime.servers.list@.contains(server) <==> before.runtime.servers.list@.contains(
            server,
        ) && server.pane != pane,
        after.sources.panes@.contains(source) <==> before.sources.panes@.contains(source)
            && source.pane != pane,
        after.pane_notes@.dom().contains(slot) <==> before.pane_notes@.dom().contains(slot)
            && slot.0 != pane.0,
        after.pane_notes@.dom().contains(slot) ==> after.pane_notes@[slot]
            == before.pane_notes@[slot],
        before.toast is Some && before.toast->0.pane == pane ==> after.toast is None,
        before.toast is Some && before.toast->0.pane != pane ==> after.toast == before.toast,
        after.session.clients == before.session.clients,
        after.session.view == before.session.view,
        after.runtime.config == before.runtime.config,
        dropped.retired <==> exists|i: int|
            0 <= i < before.sources.panes@.len() && (#[trigger] before.sources.panes@[i]).pane
                == pane,
        dropped.retired <==> after.retiring_ptys@.len() > before.retiring_ptys@.len(),
{
    lemma_filter_holds(before.instructions.items@, elsewhere(pane), item);
    lemma_filter_holds(before.notifications.pending@, of_other_pane(pane), notice);
    lemma_filter_holds(before.runtime.runs.deliveries@, delivered_elsewhere(pane), delivery);
    lemma_filter_holds(before.runtime.servers.list@, of_other(pane), server);
    lemma_filter_holds(before.sources.panes@, |s: PaneSource| s.pane != pane, source);
}

/// A closed Pane leaves the hierarchy as its closing says, and the notes of a
/// Project go with the Project that it emptied.
pub proof fn lemma_closed_pane_leaves(
    before: Server,
    after: Server,
    pane: PaneId,
    now: u64,
    out: PaneClosing,
    slot: (u64, Seq<char>),
)
    requires
        before.closed(after, pane, now, out),
    ensures
        after.session.workspace@ == before.session.workspace@.close(pane),
        out.done == before.session.workspace@.closing(pane),
        out.done.removed_project is None ==> after.project_notes@ == before.project_notes@,
        out.done.removed_project matches Some(project) ==> (
        after.project_notes@.dom().contains(slot) <==> before.project_notes@.dom().contains(slot)
            && slot.0 != project.0),
        out.sync_files ==> out.done.project_changed,
{
}

} // verus!
