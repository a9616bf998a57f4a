//! Carrying out what a run's engine asks for: opening turns with a prompt,
//! asking a human, and ending the run.
use crate::hierarchy::Workspace;
use crate::orchestration::{
    ActiveRun, Action, OrchestrationKind, Orchestrations, PendingDelivery,
    ORCHESTRATION_STALL_TIMEOUT_MS,
};
use crate::run_flow::{drop_submissions, not_among, of_other_turn, retry_delay};
use crate::text::{clip, push_decimal, push_text, same_text, trim};
use crate::types::PaneId;
use vstd::arithmetic::power2::*;
use vstd::prelude::*;

verus! {

/// The most characters that are kept of an outcome or a title.
pub const MAX_OUTCOME_CHARS: usize = 16_384;

/// What a role is told of the work before it.
pub open spec fn handoff_text(handoff: Option<Seq<char>>) -> Seq<char> {
    match handoff {
        Some(summary) => if crate::text::trimmed(summary).len() == 0 {
            Seq::empty()
        } else {
            " Previous role summary: "@ + summary + "."@
        },
        None => Seq::empty(),
    }
}

/// The prompt that opens a relay turn.
pub open spec fn relay_prompt_text(
    role: Seq<char>,
    goal: Seq<char>,
    token: u64,
    handoff: Option<Seq<char>>,
) -> Seq<char> {
    "You are the "@ + role + " in a Uniterm relay. Goal: "@ + goal + "."@ + handoff_text(handoff)
        + " Work in the shared Project, then run exactly: uniterm relay submit "@
        + crate::text::decimal(token as nat)
}

/// Write the prompt that opens a relay turn.
pub fn relay_prompt(role: &str, goal: &str, token: u64, handoff: Option<&str>) -> (prompt: String)
    ensures
        prompt@ == relay_prompt_text(
            role@,
            goal@,
            token,
            match handoff {
                Some(summary) => Some(summary@),
                None => None,
            },
        ),
{
    let mut prompt = "You are the ".to_owned();
    push_text(&mut prompt, role);
    push_text(&mut prompt, " in a Uniterm relay. Goal: ");
    push_text(&mut prompt, goal);
    push_text(&mut prompt, ".");
    let ghost head = prompt@;
    match handoff {
        Some(summary) => {
            let kept = trim(summary);
            if !kept.as_str().is_empty() {
                push_text(&mut prompt, " Previous role summary: ");
                push_text(&mut prompt, summary);
                push_text(&mut prompt, ".");
                assert(prompt@ =~= head + handoff_text(Some(summary@)));
            } else {
                assert(kept@.len() == 0);
                assert(prompt@ =~= head + handoff_text(Some(summary@)));
            }
        },
        None => {
            assert(prompt@ =~= head + handoff_text(None));
        },
    }
    push_text(
        &mut prompt,
        " Work in the shared Project, then run exactly: uniterm relay submit ",
    );
    push_decimal(&mut prompt, token);
    prompt
}

/// Write the prompt that opens a workflow turn: the role's own, after what the
/// verifier found.
pub fn workflow_prompt(rendered: String, findings: Option<&str>) -> (prompt: String)
    ensures
        prompt@ == match findings {
            Some(f) => "The verifier sent this back. Findings: "@ + f@ + ". "@ + rendered@,
            None => rendered@,
        },
{
    match findings {
        Some(f) => {
            let mut prompt = "The verifier sent this back. Findings: ".to_owned();
            push_text(&mut prompt, f);
            push_text(&mut prompt, ". ");
            push_text(&mut prompt, rendered.as_str());
            prompt
        },
        None => rendered,
    }
}

/// The bytes that start a bracketed paste.
pub open spec fn paste_start() -> Seq<u8> {
    seq![27u8, 91, 50, 48, 48, 126]
}

/// The bytes that end a bracketed paste.
pub open spec fn paste_end() -> Seq<u8> {
    seq![27u8, 91, 50, 48, 49, 126]
}

/// The bytes that hand a text to a running program: pasted as it negotiated,
/// and submitted.
pub open spec fn paste(text: Seq<char>, bracketed: bool) -> Seq<u8> {
    let body = vstd::utf8::encode_utf8(text);
    if bracketed {
        paste_start() + body + paste_end() + seq![13u8]
    } else {
        body + seq![13u8]
    }
}

/// The bytes that hand a text to a running program.
pub fn paste_bytes(text: &str, bracketed: bool) -> (bytes: Vec<u8>)
    ensures
        bytes@ == paste(text@, bracketed),
{
    let mut bytes: Vec<u8> = Vec::new();
    if bracketed {
        bytes.push(27);
        bytes.push(91);
        bytes.push(50);
        bytes.push(48);
        bytes.push(48);
        bytes.push(126);
    }
    let ghost head = bytes@;
    crate::queue::push_bytes(&mut bytes, text.as_bytes());
    if bracketed {
        assert(head =~= paste_start());
        bytes.push(27);
        bytes.push(91);
        bytes.push(50);
        bytes.push(48);
        bytes.push(49);
        bytes.push(126);
    }
    bytes.push(13);
    assert(bytes@ =~= paste(text@, bracketed));
    bytes
}

/// A prompt to offer to the Pane of a role.
#[derive(Debug)]
pub struct PromptPlan {
    pub pane: PaneId,
    pub provider: String,
    /// The agent is not running yet: the prompt goes with its launch.
    pub first: bool,
    pub bytes: Vec<u8>,
}

/// Plan the prompt of a role. Its Pane waits for one line, which launches the
/// agent; a running agent gets the prompt pasted.
pub fn plan_prompt(
    run: &ActiveRun,
    role: usize,
    prompt: &str,
    launch_line: &str,
    bracketed: bool,
) -> (plan: PromptPlan)
    requires
        run.wf(),
        role < run.roles@.len(),
    ensures
        plan.pane == run.role_panes@[role as int],
        plan.provider == run.role_providers@[role as int].id,
        plan.first == !run.started@[role as int],
        plan.bytes@ == if run.started@[role as int] {
            paste(prompt@, bracketed)
        } else {
            vstd::utf8::encode_utf8(launch_line@) + seq![10u8]
        },
{
    let first = !run.started[role];
    let bytes = if first {
        let mut bytes: Vec<u8> = Vec::new();
        crate::queue::push_bytes(&mut bytes, launch_line.as_bytes());
        bytes.push(10);
        assert(bytes@ =~= vstd::utf8::encode_utf8(launch_line@) + seq![10u8]);
        bytes
    } else {
        paste_bytes(prompt, bracketed)
    };
    PromptPlan {
        pane: run.role_panes[role],
        provider: run.role_providers[role].id.clone(),
        first,
        bytes,
    }
}

/// What to do for an action.
#[derive(Debug)]
pub enum RunStep {
    /// Open the turn of a role in its Pane.
    Prompt { role: usize, token: u64, pane: PaneId },
    /// End the run.
    Finish { done: bool, outcome: String },
    /// Ask a human in a Pane; the task is blocked.
    Ask { pane: PaneId, reason: String },
    Nothing,
}

/// Decide what an action comes to.
pub fn plan_action(run: &ActiveRun, action: Action) -> (step: RunStep)
    requires
        run.wf(),
        action matches Action::Inject { role, .. } ==> role < run.roles@.len(),
    ensures
        match action {
            Action::Inject { role, token } => step == (RunStep::Prompt {
                role,
                token,
                pane: run.role_panes@[role as int],
            }),
            Action::Complete => step matches RunStep::Finish { done, outcome } && done && outcome@
                == "done"@,
            Action::Escalate { reason } => step == (RunStep::Ask {
                pane: run.role_panes@[run.state.cur as int],
                reason,
            }),
            Action::Abort { reason } => step == (RunStep::Finish { done: false, outcome: reason }),
            Action::AwaitSubmit | Action::Hold => step is Nothing,
        },
{
    match action {
        Action::Inject { role, token } => RunStep::Prompt {
            role,
            token,
            pane: run.role_panes[role],
        },
        Action::Complete => RunStep::Finish { done: true, outcome: "done".to_owned() },
        Action::Escalate { reason } => RunStep::Ask {
            pane: run.role_panes[run.state.cur],
            reason,
        },
        Action::Abort { reason } => RunStep::Finish { done: false, outcome: reason },
        Action::AwaitSubmit | Action::Hold => RunStep::Nothing,
    }
}

/// How a run ended.
#[derive(Clone, Copy, Debug, PartialEq, Eq, Structural)]
pub enum RunEnd {
    Completed,
    Canceled,
    Failed,
}

/// How a run ended, by its outcome.
pub open spec fn run_end(done: bool, outcome: Seq<char>) -> RunEnd {
    if done {
        RunEnd::Completed
    } else if outcome == "stopped by human"@ {
        RunEnd::Canceled
    } else {
        RunEnd::Failed
    }
}

/// The Tab title of a run that ended.
pub open spec fn ended_title(run: ActiveRun, outcome: Seq<char>) -> Seq<char> {
    match (run.kind, run.template) {
        (OrchestrationKind::Workflow, Some(template)) => "wf:"@ + template@ + ": "@ + outcome,
        (OrchestrationKind::Workflow, None) => "wf:"@ + ": "@ + outcome,
        (OrchestrationKind::Relay, _) => "relay: "@ + outcome,
    }
}

/// A run that ended.
#[derive(Debug)]
pub struct FinishedRun {
    pub end: RunEnd,
    /// What the run's record keeps of the outcome.
    pub recorded: String,
    pub title: String,
}

/// A run after its Pane took the prompt of a role.
pub open spec fn role_prompted(
    before: ActiveRun,
    after: ActiveRun,
    role: int,
    first: bool,
    now: u64,
) -> bool {
    &&& after == (ActiveRun {
        stall_deadline: Some((now + ORCHESTRATION_STALL_TIMEOUT_MS) as u64),
        started: after.started,
        ..before
    })
    &&& after.started@ == if first {
        before.started@.update(role, true)
    } else {
        before.started@
    }
}

impl Orchestrations {
    /// Take note of whether the Pane took the prompt of a role. A refused
    /// prompt is offered again later. Gives the provider that the Pane now
    /// belongs to, after a first prompt.
    pub fn prompt_offered(
        &mut self,
        run: &mut ActiveRun,
        role: usize,
        token: u64,
        plan: PromptPlan,
        accepted: bool,
        now: u64,
    ) -> (bind: Option<String>)
        requires
            old(run).wf(),
            role < old(run).roles@.len(),
            now <= u64::MAX - ORCHESTRATION_STALL_TIMEOUT_MS,
        ensures
            final(run).wf(),
            accepted ==> {
                &&& role_prompted(*old(run), *final(run), role as int, plan.first, now)
                &&& *final(self) == *old(self)
                &&& bind == if plan.first {
                    Some(plan.provider)
                } else {
                    None
                }
            },
            !accepted ==> {
                &&& bind is None
                &&& *final(run) == *old(run)
                &&& *final(self) == (Orchestrations {
                    deliveries: final(self).deliveries,
                    ..*old(self)
                })
                &&& final(self).deliveries@ == old(self).deliveries@.filter(
                    of_other_turn(old(run).kind, token),
                ).push(
                    PendingDelivery {
                        kind: old(run).kind,
                        task_id: old(run).task_id,
                        token,
                        pane: plan.pane,
                        bytes: plan.bytes,
                        first_delivery: plan.first,
                        agent_id: plan.provider,
                        attempts: 1,
                        due: (now + retry_delay(token, 1)) as u64,
                    },
                )
            },
    {
        if accepted {
            run.stall_deadline = Some(now + ORCHESTRATION_STALL_TIMEOUT_MS);
            if plan.first {
                run.started.set(role, true);
                return Some(plan.provider);
            }
            return None;
        }
        proof {
            lemma2_to64();
        }
        self.schedule_prompt_retry(
            PendingDelivery {
                kind: run.kind,
                task_id: run.task_id,
                token,
                pane: plan.pane,
                bytes: plan.bytes,
                first_delivery: plan.first,
                agent_id: plan.provider,
                attempts: 1,
                due: now,
            },
            now,
        );
        None
    }

    /// End a run: its checks are forgotten.
    pub fn finish_run(&mut self, run: &ActiveRun, done: bool, outcome: &str) -> (ended: FinishedRun)
        ensures
            *final(self) == (Orchestrations { submissions: final(self).submissions, ..*old(self) }),
            final(self).submissions@ == old(self).submissions@.filter(
                not_among(seq![run.task_id]),
            ),
            ended.end == run_end(done, outcome@),
            ended.recorded@ == crate::text::clipped(outcome@, MAX_OUTCOME_CHARS as nat),
            ended.title@ == ended_title(*run, outcome@),
    {
        let mut tasks: Vec<u64> = Vec::new();
        tasks.push(run.task_id);
        assert(tasks@ =~= seq![run.task_id]);
        drop_submissions(&mut self.submissions, &tasks);
        let end = if done {
            RunEnd::Completed
        } else if same_text(outcome, "stopped by human") {
            RunEnd::Canceled
        } else {
            RunEnd::Failed
        };
        let mut title = match run.kind {
            OrchestrationKind::Workflow => {
                let mut title = "wf:".to_owned();
                match &run.template {
                    Some(template) => push_text(&mut title, template.as_str()),
                    None => {},
                }
                push_text(&mut title, ": ");
                title
            },
            OrchestrationKind::Relay => "relay: ".to_owned(),
        };
        push_text(&mut title, outcome);
        FinishedRun { end, recorded: clip(outcome, MAX_OUTCOME_CHARS), title }
    }
}

impl Workspace {
    /// Name the Tab that shows a Pane.
    pub fn name_tab_of(&mut self, pane: PaneId, title: String)
        ensures
            final(self)@ == match crate::hierarchy::window_of(old(self)@.windows, pane) {
                Some(i) => crate::hierarchy::WorkspaceState {
                    windows: old(self)@.windows.update(
                        i,
                        crate::hierarchy::Win { name: Some(title), ..old(self)@.windows[i] },
                    ),
                    ..old(self)@
                },
                None => old(self)@,
            },
    {
        match self.window_of(pane) {
            Some(i) => {
                self.windows[i].name = Some(title);
            },
            None => {},
        }
    }
}

/// How a newly opened turn is recorded.
#[derive(Clone, Copy, Debug, PartialEq, Eq, Structural)]
pub enum ActivationRecord {
    Activated { role: u64 },
    /// The turn passes from one role to another.
    Handoff { from: u64, to: u64 },
}

/// Record an opened turn: as a handoff where another role had the turn.
pub fn record_activation(active_role: Option<u64>, role: u64) -> (record: ActivationRecord)
    ensures
        record == match active_role {
            Some(from) => if from != role {
                ActivationRecord::Handoff { from, to: role }
            } else {
                ActivationRecord::Activated { role }
            },
            None => ActivationRecord::Activated { role },
        },
{
    match active_role {
        Some(from) => if from != role {
            ActivationRecord::Handoff { from, to: role }
        } else {
            ActivationRecord::Activated { role }
        },
        None => ActivationRecord::Activated { role },
    }
}

} // verus!
