//! What the runtime reports: facts from the disk, detections, checks that
//! finished, and failures to save.
use crate::artifact::{ArtifactId, ObservationQueue};
use crate::catalog::{
    agent_ids, catalog_lines, custom_entry, listed, merge_agents_snapshot, merge_catalog,
    provider_entry, sorted_by_name, with_live, AgentInfo, CatalogEntry, LiveCounts, ProviderState,
};
use crate::detection::{AgentPane, AgentStatus, Transition, Verdict};
use crate::dev_servers::{all_noted, server_at, DevServers, FoundServer};
use crate::launch::{quoted, shell_quote};
use crate::order::ascending;
use crate::orchestration::{
    ActiveRun, ArtifactClaim, Checkpoint, OrchestrationKind, Orchestrations, PendingRelayActivation,
    PendingSubmission,
};
use crate::run_flow::taken;
use crate::search_path::texts;
use crate::settings::Config;
use crate::text::{push_text, same_text};
use crate::types::{PaneId, ProjectId};
use vstd::prelude::*;

verus! {

/// What the runtime keeps in step with: the settings, the servers and files it
/// watches, the runs it checks for, and whether it can save.
#[derive(Debug)]
pub struct RuntimeSide {
    pub config: Config,
    pub servers: DevServers,
    pub observations: ObservationQueue,
    pub runs: Orchestrations,
    pub durability_error: Option<String>,
}

/// A report of the runtime.
#[derive(Debug)]
pub enum AgentReply {
    AgentsDisk { client: u64, providers: Vec<ProviderState> },
    Catalog { client: u64, entries: Vec<CatalogEntry> },
    ConfigSaved { client: u64, error: Option<String> },
    EditorValidated { client: u64, editor: String, editor_rules: String, error: Option<String> },
    EditorResolved { project: ProjectId, path: String, command: String, error: Option<String> },
    ServersDetected { pane: PaneId, servers: Vec<FoundServer> },
    ServerDown { pane: PaneId, port: u16 },
    Detected { pane: PaneId, found: Verdict },
    SetStatus { pane: PaneId, status: AgentStatus },
    InjectText { pane: PaneId, text: String },
    ArtifactFilesChanged { artifacts: Vec<ArtifactId> },
    ArtifactObserved { artifact: ArtifactId, failed: bool },
    ArtifactValidated {
        kind: OrchestrationKind,
        task_id: u64,
        token: u64,
        claims: Vec<ArtifactClaim>,
        error: Option<String>,
    },
    CheckpointCreated { task_id: u64, token: u64, checkpoint: Option<String> },
    DurabilityError { workspace: String, operation: String, reason: String },
    ManifestsReloaded,
    /// A directory was listed; `taken` says that the file tree asked for it.
    FilesListed { taken: bool },
    FileChanged { project: ProjectId, directory: String },
    /// A file was changed on request; `taken` says that the file tree waited
    /// for it.
    FileMutated { directory: String, taken: bool },
    /// The changes of a Project were counted.
    GitCounted { project: ProjectId },
    /// An agent asks a human.
    Question { pane: PaneId, summary: String },
    CheckpointRestored { waiting: u64, task_id: u64, restored: String, error: Option<String> },
    /// A report that concerns nothing kept here.
    Outside,
}

/// What a report finds outside.
#[derive(Debug)]
pub struct ReplyFacts {
    pub pane_exists: bool,
    /// The file tree is shown.
    pub files_visible: bool,
    /// The Project whose files are shown, and the active one.
    pub files_project: ProjectId,
    pub active_project: ProjectId,
    /// The id of each Pane's agent.
    pub bound: Vec<String>,
    pub live: LiveCounts,
    pub name: String,
    /// The shell that Panes run.
    pub program: String,
}

/// What is left to do about a report.
#[derive(Debug)]
pub enum ReplyStep {
    Nothing,
    ListAgents { client: u64, items: Vec<AgentInfo> },
    ListWorkspaces { client: u64, entries: Vec<CatalogEntry> },
    AnswerSettings { client: u64, error: Option<String> },
    SaveConfig { client: u64 },
    EditorFailed(String),
    OpenEditor { args: Vec<String> },
    ServersChanged,
    /// Stop watching for the server; whether the list changed.
    ForgetServer { pane: PaneId, port: u16, changed: bool },
    /// Watch this process, then apply the verdict.
    ApplyVerdict { pane: PaneId, watch: Option<i32>, found: Verdict },
    /// The Pane is gone; its agent's process is still to be watched.
    WatchProcess { pane: PaneId, pid: i32 },
    ApplyStatus { pane: PaneId, status: AgentStatus },
    Inject { pane: PaneId, text: String },
    Observe(Vec<ArtifactId>),
    /// An observation came: whether it counts, and whether the file is to be
    /// observed once more.
    Observed { apply: bool, again: bool },
    GateFailed { kind: OrchestrationKind, token: u64, reason: String },
    /// Record what was checked, and carry the submission out.
    Validated { submission: PendingSubmission, claims: Vec<ArtifactClaim> },
    /// Start the turn that waited for its checkpoint.
    Activate { run: ActiveRun, activation: PendingRelayActivation },
    ShowDurabilityError,
    /// Send what every Pane shows to the provider rules.
    RefreshEvidence,
    /// Watch the directories that are open, and paint.
    WatchFiles,
    /// List a directory once more; whether to paint.
    ListFiles { directory: String, paint: bool },
    /// Take the counts, and paint where they changed.
    TakeGitCounts { project: ProjectId },
    Ask { pane: PaneId, summary: String },
    /// Ask again in the Pane of a question that stays open.
    AskAgain { waiting: u64, question: String },
    /// Record that files were restored, and resume the run that waited.
    Resume { waiting: u64, task_id: u64, restored: String },
    Outside,
}

/// The process to watch once an agent was recognized, which is the one in front.
pub open spec fn watched_process(found: Verdict) -> Option<i32> {
    if found.agent is Some {
        found.foreground_pid
    } else {
        None
    }
}

/// What a human is asked after a checkpoint could not be restored.
pub open spec fn rollback_question(reason: Seq<char>) -> Seq<char> {
    "checkpoint rollback failed: "@ + reason
}

/// The first submission under check for a turn, from position `i` on.
pub open spec fn checked_at(
    list: Seq<PendingSubmission>,
    kind: OrchestrationKind,
    task_id: u64,
    token: u64,
    i: int,
) -> Option<int>
    decreases list.len() - i,
{
    if i < 0 || i >= list.len() {
        None
    } else if list[i].kind == kind && list[i].task_id == task_id && list[i].token == token {
        Some(i)
    } else {
        checked_at(list, kind, task_id, token, i + 1)
    }
}

/// The first turn that waits for a checkpoint, from position `i` on.
pub open spec fn activation_at(
    list: Seq<PendingRelayActivation>,
    task_id: u64,
    token: u64,
    i: int,
) -> Option<int>
    decreases list.len() - i,
{
    if i < 0 || i >= list.len() {
        None
    } else if list[i].task_id == task_id && list[i].token == token {
        Some(i)
    } else {
        activation_at(list, task_id, token, i + 1)
    }
}

/// The first run of a task with this turn open, from position `i` on.
pub open spec fn turn_at(list: Seq<ActiveRun>, task_id: u64, token: u64, i: int) -> Option<int>
    decreases list.len() - i,
{
    if i < 0 || i >= list.len() {
        None
    } else if list[i].task_id == task_id && list[i].state.token == token {
        Some(i)
    } else {
        turn_at(list, task_id, token, i + 1)
    }
}

fn find_checked(
    list: &Vec<PendingSubmission>,
    kind: OrchestrationKind,
    task_id: u64,
    token: u64,
) -> (found: Option<usize>)
    ensures
        crate::hierarchy::index_of(found) == checked_at(list@, kind, task_id, token, 0),
        found matches Some(i) ==> i < list@.len(),
{
    let mut i: usize = 0;
    while i < list.len()
        invariant
            i <= list@.len(),
            checked_at(list@, kind, task_id, token, 0) == checked_at(
                list@,
                kind,
                task_id,
                token,
                i as int,
            ),
        decreases list@.len() - i,
    {
        if list[i].kind == kind && list[i].task_id == task_id && list[i].token == token {
            return Some(i);
        }
        i += 1;
    }
    None
}

fn find_activation(list: &Vec<PendingRelayActivation>, task_id: u64, token: u64) -> (found: Option<
    usize,
>)
    ensures
        crate::hierarchy::index_of(found) == activation_at(list@, task_id, token, 0),
        found matches Some(i) ==> i < list@.len(),
{
    let mut i: usize = 0;
    while i < list.len()
        invariant
            i <= list@.len(),
            activation_at(list@, task_id, token, 0) == activation_at(
                list@,
                task_id,
                token,
                i as int,
            ),
        decreases list@.len() - i,
    {
        if list[i].task_id == task_id && list[i].token == token {
            return Some(i);
        }
        i += 1;
    }
    None
}

fn find_turn(list: &Vec<ActiveRun>, task_id: u64, token: u64) -> (found: Option<usize>)
    ensures
        crate::hierarchy::index_of(found) == turn_at(list@, task_id, token, 0),
        found matches Some(i) ==> i < list@.len(),
{
    let mut i: usize = 0;
    while i < list.len()
        invariant
            i <= list@.len(),
            turn_at(list@, task_id, token, 0) == turn_at(list@, task_id, token, i as int),
        decreases list@.len() - i,
    {
        if list[i].task_id == task_id && list[i].state.token == token {
            return Some(i);
        }
        i += 1;
    }
    None
}

/// The command line that opens a file in an editor, and then a shell.
pub open spec fn editor_line(command: Seq<char>, path: Seq<char>, program: Seq<char>) -> Seq<char> {
    command + " -- "@ + quoted(path) + "; exec "@ + quoted(program)
}

fn write_editor_args(command: &str, path: &str, program: &str) -> (args: Vec<String>)
    ensures
        texts(args@) == seq!["-c"@, editor_line(command@, path@, program@)],
{
    let mut line = command.to_owned();
    push_text(&mut line, " -- ");
    push_text(&mut line, shell_quote(path).as_str());
    push_text(&mut line, "; exec ");
    push_text(&mut line, shell_quote(program).as_str());
    let mut args: Vec<String> = Vec::new();
    args.push("-c".to_owned());
    args.push(line);
    assert(texts(args@) =~= seq!["-c"@, editor_line(command@, path@, program@)]);
    args
}

/// What is shown of a failure to save.
pub open spec fn durability_text(
    workspace: Seq<char>,
    operation: Seq<char>,
    reason: Seq<char>,
) -> Seq<char> {
    operation + " failed for Workspace "@ + workspace + ": "@ + reason
}

fn write_durability(workspace: &str, operation: &str, reason: &str) -> (text: String)
    ensures
        text@ == durability_text(workspace@, operation@, reason@),
{
    let mut text = operation.to_owned();
    push_text(&mut text, " failed for Workspace ");
    push_text(&mut text, workspace);
    push_text(&mut text, ": ");
    push_text(&mut text, reason);
    text
}

/// The observations after the first `n` of these files changed: those under
/// way, those to repeat, and those to start.
pub open spec fn asked(
    pending: Seq<ArtifactId>,
    dirty: Seq<ArtifactId>,
    ids: Seq<ArtifactId>,
    n: nat,
) -> (Seq<ArtifactId>, Seq<ArtifactId>, Seq<ArtifactId>)
    decreases n,
{
    if n == 0 {
        (pending, dirty, Seq::empty())
    } else {
        let (p, d, sent) = asked(pending, dirty, ids, (n - 1) as nat);
        let id = ids[n - 1];
        if !p.contains(id) {
            (p.push(id), d, sent.push(id))
        } else if d.contains(id) {
            (p, d, sent)
        } else {
            (p, d.push(id), sent)
        }
    }
}

/// The list of agents that a client is sent.
pub open spec fn agents_listed(
    providers: Seq<ProviderState>,
    bound: Seq<Seq<char>>,
    items: Seq<AgentInfo>,
) -> bool {
    let custom = agent_ids(items).skip(providers.len() as int);
    &&& items.len() >= providers.len()
    &&& forall|i: int|
        0 <= i < providers.len() ==> provider_entry(providers, bound, i, #[trigger] items[i])
    &&& forall|i: int|
        providers.len() <= i < items.len() ==> custom_entry(bound, #[trigger] items[i])
    &&& ascending(custom)
    &&& forall|t: Seq<char>| #[trigger]
        custom.contains(t) <==> bound.contains(t) && !listed(
            providers,
            t,
            providers.len() as int,
        )
}

/// An editor was found for a file: it opens only while that Project's files are
/// shown and the Project is active.
pub open spec fn editor_step(
    facts: ReplyFacts,
    project: ProjectId,
    path: Seq<char>,
    command: Seq<char>,
    error: Option<String>,
    step: ReplyStep,
) -> bool {
    if project != facts.files_project || project != facts.active_project {
        step is Nothing
    } else {
        match error {
            Some(why) => step == ReplyStep::EditorFailed(why),
            None => step matches ReplyStep::OpenEditor { args } && texts(args@) == seq![
                "-c"@,
                editor_line(command, path, facts.program@),
            ],
        }
    }
}

/// The artifacts of a submission were checked.
pub open spec fn validation_done(
    a: RuntimeSide,
    b: RuntimeSide,
    kind: OrchestrationKind,
    task_id: u64,
    token: u64,
    claims: Vec<ArtifactClaim>,
    error: Option<String>,
    step: ReplyStep,
) -> bool {
    match checked_at(a.runs.submissions@, kind, task_id, token, 0) {
        None => b == a && step is Nothing,
        Some(i) => {
            &&& b == (RuntimeSide {
                runs: Orchestrations { submissions: b.runs.submissions, ..a.runs },
                ..a
            })
            &&& b.runs.submissions@ == taken(a.runs.submissions@, i)
            &&& step == match error {
                Some(why) => ReplyStep::GateFailed { kind, token, reason: why },
                None => ReplyStep::Validated { submission: a.runs.submissions@[i], claims },
            }
        },
    }
}

/// A checkpoint was made, or could not be: the turn that waited for it starts.
pub open spec fn checkpoint_done(
    a: RuntimeSide,
    b: RuntimeSide,
    task_id: u64,
    token: u64,
    checkpoint: Option<String>,
    step: ReplyStep,
) -> bool {
    match activation_at(a.runs.relay_activations@, task_id, token, 0) {
        None => b == a && step is Nothing,
        Some(i) => {
            let left = taken(a.runs.relay_activations@, i);
            &&& b.runs.relay_activations@ == left
            &&& match turn_at(a.runs.relays@, task_id, token, 0) {
                None => {
                    &&& step is Nothing
                    &&& b == (RuntimeSide {
                        runs: Orchestrations {
                            relay_activations: b.runs.relay_activations,
                            ..a.runs
                        },
                        ..a
                    })
                },
                Some(r) => {
                    let before = a.runs.relays@[r];
                    &&& b == (RuntimeSide {
                        runs: Orchestrations {
                            relay_activations: b.runs.relay_activations,
                            relays: b.runs.relays,
                            ..a.runs
                        },
                        ..a
                    })
                    &&& b.runs.relays@ == taken(a.runs.relays@, r)
                    &&& step matches ReplyStep::Activate { run, activation }
                    &&& activation == a.runs.relay_activations@[i]
                    &&& run == (ActiveRun { checkpoints: run.checkpoints, ..before })
                    &&& run.checkpoints@ == match checkpoint {
                        Some(name) => before.checkpoints@.push(Checkpoint { token, name }),
                        None => before.checkpoints@,
                    }
                },
            }
        },
    }
}

/// What a report did.
pub open spec fn reply_done(
    a: RuntimeSide,
    b: RuntimeSide,
    reply: AgentReply,
    facts: ReplyFacts,
    step: ReplyStep,
) -> bool {
    match reply {
        AgentReply::AgentsDisk { client, providers } => {
            &&& b == a
            &&& step matches ReplyStep::ListAgents { client: c, items }
            &&& c == client
            &&& agents_listed(providers@, texts(facts.bound@), items@)
        },
        AgentReply::Catalog { client, entries } => {
            &&& b == a
            &&& step matches ReplyStep::ListWorkspaces { client: c, entries: list }
            &&& c == client
            &&& sorted_by_name(
                with_live(catalog_lines(entries@), facts.name@, facts.live, 0),
                catalog_lines(list@),
            )
        },
        AgentReply::ConfigSaved { client, error } => b == a && step == (ReplyStep::AnswerSettings {
            client,
            error,
        }),
        AgentReply::EditorValidated { client, editor, editor_rules, error } => match error {
            Some(_) => b == a && step == (ReplyStep::AnswerSettings { client, error }),
            None => {
                &&& b == (RuntimeSide { config: Config { editor, editor_rules, ..a.config }, ..a })
                &&& step == (ReplyStep::SaveConfig { client })
            },
        },
        AgentReply::EditorResolved { project, path, command, error } => b == a && editor_step(
            facts,
            project,
            path@,
            command@,
            error,
            step,
        ),
        AgentReply::ServersDetected { pane, servers } => if facts.pane_exists {
            &&& b == (RuntimeSide { servers: b.servers, ..a })
            &&& (b.servers.list@, b.servers.next as int) == all_noted(
                a.servers.list@,
                a.servers.next as int,
                pane,
                servers@,
                servers@.len(),
            )
            &&& step == if b.servers.next != a.servers.next {
                ReplyStep::ServersChanged
            } else {
                ReplyStep::Nothing
            }
        } else {
            b == a && step is Nothing
        },
        AgentReply::ServerDown { pane, port } => {
            let held = server_at(a.servers.list@, pane, port, 0);
            &&& b == (RuntimeSide { servers: b.servers, ..a })
            &&& b.servers.next == a.servers.next
            &&& b.servers.list@ == match held {
                Some(i) => a.servers.list@.remove(i),
                None => a.servers.list@,
            }
            &&& step == (ReplyStep::ForgetServer { pane, port, changed: held is Some })
        },
        AgentReply::Detected { pane, found } => b == a && step == if facts.pane_exists {
            ReplyStep::ApplyVerdict { pane, watch: watched_process(found), found }
        } else {
            match watched_process(found) {
                Some(pid) => ReplyStep::WatchProcess { pane, pid },
                None => ReplyStep::Nothing,
            }
        },
        AgentReply::SetStatus { pane, status } => b == a && step == if facts.pane_exists {
            ReplyStep::ApplyStatus { pane, status }
        } else {
            ReplyStep::Nothing
        },
        AgentReply::InjectText { pane, text } => b == a && step == if facts.pane_exists {
            ReplyStep::Inject { pane, text }
        } else {
            ReplyStep::Nothing
        },
        AgentReply::ArtifactFilesChanged { artifacts } => {
            &&& b == (RuntimeSide { observations: b.observations, ..a })
            &&& step matches ReplyStep::Observe(sent)
            &&& (b.observations.pending@, b.observations.dirty@, sent@) == asked(
                a.observations.pending@,
                a.observations.dirty@,
                artifacts@,
                artifacts@.len(),
            )
        },
        AgentReply::ArtifactObserved { artifact, failed } => {
            &&& b == (RuntimeSide { observations: b.observations, ..a })
            &&& b.observations.pending@ == crate::artifact::without(
                a.observations.pending@,
                artifact,
            )
            &&& b.observations.dirty@ == crate::artifact::without(a.observations.dirty@, artifact)
            &&& step == (ReplyStep::Observed {
                apply: !failed,
                again: a.observations.dirty@.contains(artifact),
            })
        },
        AgentReply::ArtifactValidated { kind, task_id, token, claims, error } => validation_done(
            a,
            b,
            kind,
            task_id,
            token,
            claims,
            error,
            step,
        ),
        AgentReply::CheckpointCreated { task_id, token, checkpoint } => checkpoint_done(
            a,
            b,
            task_id,
            token,
            checkpoint,
            step,
        ),
        AgentReply::DurabilityError { workspace, operation, reason } => {
            let text = durability_text(workspace@, operation@, reason@);
            if a.durability_error matches Some(shown) && shown@ == text {
                b == a && step is Nothing
            } else {
                &&& b == (RuntimeSide { durability_error: b.durability_error, ..a })
                &&& b.durability_error matches Some(shown) && shown@ == text
                &&& step is ShowDurabilityError
            }
        },
        AgentReply::ManifestsReloaded => b == a && step is RefreshEvidence,
        AgentReply::FilesListed { taken } => b == a && step == if taken && facts.files_visible {
            ReplyStep::WatchFiles
        } else {
            ReplyStep::Nothing
        },
        AgentReply::FileChanged { project, directory } => b == a && step == if facts.files_visible
            && project == facts.files_project {
            ReplyStep::ListFiles { directory, paint: false }
        } else {
            ReplyStep::Nothing
        },
        AgentReply::FileMutated { directory, taken } => b == a && step == if taken
            && facts.files_visible {
            ReplyStep::ListFiles { directory, paint: true }
        } else {
            ReplyStep::Nothing
        },
        AgentReply::GitCounted { project } => b == a && step == if facts.files_visible {
            ReplyStep::TakeGitCounts { project }
        } else {
            ReplyStep::Nothing
        },
        AgentReply::Question { pane, summary } => b == a && step == (ReplyStep::Ask {
            pane,
            summary,
        }),
        AgentReply::CheckpointRestored { waiting, task_id, restored, error } => {
            &&& b == a
            &&& match error {
                Some(why) => {
                    &&& step matches ReplyStep::AskAgain { waiting: w, question }
                    &&& w == waiting
                    &&& question@ == rollback_question(why@)
                },
                None => step == (ReplyStep::Resume { waiting, task_id, restored }),
            }
        },
        AgentReply::Outside => b == a && step is Outside,
    }
}

impl RuntimeSide {
    pub open spec fn wf(self) -> bool {
        &&& self.servers.wf()
        &&& self.observations.wf()
        &&& self.runs.wf()
    }

    fn on_files_changed(&mut self, artifacts: &Vec<ArtifactId>) -> (sent: Vec<ArtifactId>)
        requires
            old(self).wf(),
        ensures
            final(self).wf(),
            *final(self) == (RuntimeSide { observations: final(self).observations, ..*old(self) }),
            (final(self).observations.pending@, final(self).observations.dirty@, sent@) == asked(
                old(self).observations.pending@,
                old(self).observations.dirty@,
                artifacts@,
                artifacts@.len(),
            ),
    {
        let ghost pending = self.observations.pending@;
        let ghost dirty = self.observations.dirty@;
        let mut sent: Vec<ArtifactId> = Vec::new();
        let mut i: usize = 0;
        while i < artifacts.len()
            invariant
                i <= artifacts@.len(),
                self.wf(),
                *self == (RuntimeSide { observations: self.observations, ..*old(self) }),
                (self.observations.pending@, self.observations.dirty@, sent@) == asked(
                    pending,
                    dirty,
                    artifacts@,
                    i as nat,
                ),
            decreases artifacts@.len() - i,
        {
            let id = artifacts[i];
            if self.observations.request(id) {
                sent.push(id);
            }
            i += 1;
        }
        sent
    }

    fn on_validated(
        &mut self,
        kind: OrchestrationKind,
        task_id: u64,
        token: u64,
        claims: Vec<ArtifactClaim>,
        error: Option<String>,
    ) -> (step: ReplyStep)
        requires
            old(self).wf(),
        ensures
            final(self).wf(),
            validation_done(
                *old(self),
                *final(self),
                kind,
                task_id,
                token,
                claims,
                error,
                step,
            ),
    {
        match find_checked(&self.runs.submissions, kind, task_id, token) {
            None => ReplyStep::Nothing,
            Some(i) => {
                let submission = self.runs.submissions.swap_remove(i);
                match error {
                    Some(why) => ReplyStep::GateFailed { kind, token, reason: why },
                    None => ReplyStep::Validated { submission, claims },
                }
            },
        }
    }

    fn on_checkpoint(&mut self, task_id: u64, token: u64, checkpoint: Option<String>) -> (step:
        ReplyStep)
        requires
            old(self).wf(),
        ensures
            final(self).wf(),
            checkpoint_done(*old(self), *final(self), task_id, token, checkpoint, step),
    {
        let at = match find_activation(&self.runs.relay_activations, task_id, token) {
            Some(i) => i,
            None => {
                return ReplyStep::Nothing;
            },
        };
        let activation = self.runs.relay_activations.swap_remove(at);
        let place = match find_turn(&self.runs.relays, task_id, token) {
            Some(r) => r,
            None => {
                return ReplyStep::Nothing;
            },
        };
        let ghost before = self.runs.relays@;
        let mut run = self.runs.relays.swap_remove(place);
        if let Some(name) = checkpoint {
            run.checkpoints.push(Checkpoint { token, name });
        }
        assert forall|k: int| 0 <= k < self.runs.relays@.len() implies (
        #[trigger] self.runs.relays@[k]).wf() && self.runs.relays@[k].kind
            == OrchestrationKind::Relay by {
            assert(before[k].wf());
            assert(before.last().wf());
        }
        ReplyStep::Activate { run, activation }
    }

    fn on_durability_error(&mut self, workspace: &str, operation: &str, reason: &str) -> (step:
        ReplyStep)
        requires
            old(self).wf(),
        ensures
            final(self).wf(),
            ({
                let text = durability_text(workspace@, operation@, reason@);
                if old(self).durability_error matches Some(shown) && shown@ == text {
                    *final(self) == *old(self) && step is Nothing
                } else {
                    &&& *final(self) == (RuntimeSide {
                        durability_error: final(self).durability_error,
                        ..*old(self)
                    })
                    &&& final(self).durability_error matches Some(shown) && shown@ == text
                    &&& step is ShowDurabilityError
                }
            }),
    {
        let text = write_durability(workspace, operation, reason);
        if let Some(shown) = &self.durability_error {
            if same_text(shown.as_str(), text.as_str()) {
                return ReplyStep::Nothing;
            }
        }
        self.durability_error = Some(text);
        ReplyStep::ShowDurabilityError
    }

    fn on_editor(
        &self,
        facts: &ReplyFacts,
        project: ProjectId,
        path: &str,
        command: &str,
        error: Option<String>,
    ) -> (step: ReplyStep)
        ensures
            editor_step(*facts, project, path@, command@, error, step),
    {
        if project != facts.files_project || project != facts.active_project {
            return ReplyStep::Nothing;
        }
        match error {
            Some(why) => ReplyStep::EditorFailed(why),
            None => ReplyStep::OpenEditor {
                args: write_editor_args(command, path, facts.program.as_str()),
            },
        }
    }

    /// Take in a report of the runtime, and say what is left to do about it. A
    /// report on something that is no longer there changes nothing here.
    pub fn on_agent_reply(&mut self, reply: AgentReply, facts: &ReplyFacts) -> (step: ReplyStep)
        requires
            old(self).wf(),
            facts.bound@.len() <= u32::MAX,
            reply matches AgentReply::ServersDetected { servers, .. } ==> old(self).servers.next
                + servers@.len() <= u64::MAX,
        ensures
            final(self).wf(),
            reply_done(*old(self), *final(self), reply, *facts, step),
    {
        match reply {
            AgentReply::AgentsDisk { client, providers } => {
                let items = merge_agents_snapshot(providers, &facts.bound);
                ReplyStep::ListAgents { client, items }
            },
            AgentReply::Catalog { client, entries } => {
                let list = merge_catalog(entries, facts.name.as_str(), facts.live);
                ReplyStep::ListWorkspaces { client, entries: list }
            },
            AgentReply::ConfigSaved { client, error } => {
                ReplyStep::AnswerSettings { client, error }
            },
            AgentReply::EditorValidated { client, editor, editor_rules, error } => {
                if error.is_some() {
                    return ReplyStep::AnswerSettings { client, error };
                }
                self.config.editor = editor;
                self.config.editor_rules = editor_rules;
                ReplyStep::SaveConfig { client }
            },
            AgentReply::EditorResolved { project, path, command, error } => {
                self.on_editor(facts, project, path.as_str(), command.as_str(), error)
            },
            AgentReply::ServersDetected { pane, servers } => {
                if !facts.pane_exists {
                    return ReplyStep::Nothing;
                }
                if self.servers.detected(pane, servers) {
                    ReplyStep::ServersChanged
                } else {
                    ReplyStep::Nothing
                }
            },
            AgentReply::ServerDown { pane, port } => {
                let changed = self.servers.down(pane, port);
                ReplyStep::ForgetServer { pane, port, changed }
            },
            AgentReply::Detected { pane, found } => {
                let watch: Option<i32> = if found.agent.is_some() {
                    found.foreground_pid
                } else {
                    None
                };
                if facts.pane_exists {
                    return ReplyStep::ApplyVerdict { pane, watch, found };
                }
                match watch {
                    Some(pid) => ReplyStep::WatchProcess { pane, pid },
                    None => ReplyStep::Nothing,
                }
            },
            AgentReply::SetStatus { pane, status } => if facts.pane_exists {
                ReplyStep::ApplyStatus { pane, status }
            } else {
                ReplyStep::Nothing
            },
            AgentReply::InjectText { pane, text } => if facts.pane_exists {
                ReplyStep::Inject { pane, text }
            } else {
                ReplyStep::Nothing
            },
            AgentReply::ArtifactFilesChanged { artifacts } => {
                let sent = self.on_files_changed(&artifacts);
                ReplyStep::Observe(sent)
            },
            AgentReply::ArtifactObserved { artifact, failed } => {
                let again = self.observations.finished(artifact);
                ReplyStep::Observed { apply: !failed, again }
            },
            AgentReply::ArtifactValidated { kind, task_id, token, claims, error } => {
                self.on_validated(kind, task_id, token, claims, error)
            },
            AgentReply::CheckpointCreated { task_id, token, checkpoint } => {
                self.on_checkpoint(task_id, token, checkpoint)
            },
            AgentReply::DurabilityError { workspace, operation, reason } => {
                self.on_durability_error(workspace.as_str(), operation.as_str(), reason.as_str())
            },
            AgentReply::ManifestsReloaded => ReplyStep::RefreshEvidence,
            AgentReply::FilesListed { taken } => if taken && facts.files_visible {
                ReplyStep::WatchFiles
            } else {
                ReplyStep::Nothing
            },
            AgentReply::FileChanged { project, directory } => if facts.files_visible && project
                == facts.files_project {
                ReplyStep::ListFiles { directory, paint: false }
            } else {
                ReplyStep::Nothing
            },
            AgentReply::FileMutated { directory, taken } => if taken && facts.files_visible {
                ReplyStep::ListFiles { directory, paint: true }
            } else {
                ReplyStep::Nothing
            },
            AgentReply::GitCounted { project } => if facts.files_visible {
                ReplyStep::TakeGitCounts { project }
            } else {
                ReplyStep::Nothing
            },
            AgentReply::Question { pane, summary } => ReplyStep::Ask { pane, summary },
            AgentReply::CheckpointRestored { waiting, task_id, restored, error } => match error {
                Some(why) => {
                    let mut question = "checkpoint rollback failed: ".to_owned();
                    push_text(&mut question, why.as_str());
                    ReplyStep::AskAgain { waiting, question }
                },
                None => ReplyStep::Resume { waiting, task_id, restored },
            },
            AgentReply::Outside => ReplyStep::Outside,
        }
    }

    /// Why a gate failed whose artifacts could not be recorded.
    pub fn unrecorded_reason(&self) -> (text: String)
        ensures
            text@ == match self.durability_error {
                Some(error) => error@,
                None => "Artifact ownership could not be recorded"@,
            },
    {
        match &self.durability_error {
            Some(error) => error.clone(),
            None => "Artifact ownership could not be recorded".to_owned(),
        }
    }
}

impl AgentPane {
    /// Take a status that the runtime sets; the change, where there is one.
    pub fn set_status(&mut self, status: AgentStatus) -> (change: Option<Transition>)
        ensures
            match old(self).agent {
                Some(agent) => {
                    &&& *final(self) == (AgentPane {
                        agent: Some(crate::detection::PaneAgent { status, ..agent }),
                        ..*old(self)
                    })
                    &&& change == if agent.status != status {
                        Some(Transition { previous: agent.status, status })
                    } else {
                        None
                    }
                },
                None => *final(self) == *old(self) && change is None,
            },
    {
        match self.agent.take() {
            Some(mut agent) => {
                let previous = agent.status;
                agent.status = status;
                self.agent = Some(agent);
                if previous != status {
                    Some(Transition { previous, status })
                } else {
                    None
                }
            },
            None => None,
        }
    }
}

} // verus!
