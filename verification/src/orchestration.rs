//! Live workflow and relay runs: whose turn it is, the tokens that open turns,
//! the prompts that are still to be delivered, and the deadlines.
use crate::guardrail::GuardLimits;
use crate::types::PaneId;
use vstd::prelude::*;

verus! {

/// How long a role may stay silent, in milliseconds.
pub const ORCHESTRATION_STALL_TIMEOUT_MS: u64 = 600_000;

/// How long the check of reported artifacts may take, in milliseconds.
pub const ARTIFACT_VALIDATION_TIMEOUT_MS: u64 = 30_000;

/// How long a role must be idle before its turn ends by itself, in
/// milliseconds.
pub const IDLE_FALLBACK_MS: u64 = 5_000;

/// How often a prompt is offered to a Pane.
pub const MAX_DELIVERY_ATTEMPTS: u8 = 3;

#[derive(Clone, Copy, Debug, PartialEq, Eq, Structural)]
pub enum OrchestrationKind {
    Workflow,
    Relay,
}

/// Where a run stands.
#[derive(Clone, Copy, Debug, PartialEq, Eq, Structural)]
pub enum Phase {
    Idle,
    Awaiting,
    Paused,
    Done,
    Aborted,
}

/// The state of a run's engine.
#[derive(Clone, Copy, Debug, PartialEq, Eq, Structural)]
pub struct EngineState {
    pub phase: Phase,
    /// The token that the open turn is submitted with; zero for none.
    pub token: u64,
    /// The role whose turn it is.
    pub cur: usize,
    pub max_iterations: u32,
}

/// A file that a role produces.
#[derive(Debug)]
pub struct ArtifactClaim {
    pub kind: u8,
    pub path: String,
}

/// One role of a run.
#[derive(Debug)]
pub struct RunRole {
    pub name: String,
    pub verifier: bool,
    pub expected_artifacts: Vec<ArtifactClaim>,
}

/// The provider that serves a role.
#[derive(Debug)]
pub struct RoleProvider {
    pub id: String,
    pub command: String,
}

/// A copy of the Project that a role can go back to.
#[derive(Debug)]
pub struct Checkpoint {
    pub token: u64,
    pub name: String,
}

/// One live run: its engine, its roles, and the Pane of each role.
#[derive(Debug)]
pub struct ActiveRun {
    pub kind: OrchestrationKind,
    pub state: EngineState,
    /// The workflow template; a relay has none.
    pub template: Option<String>,
    pub goal: String,
    pub roles: Vec<RunRole>,
    pub role_providers: Vec<RoleProvider>,
    pub role_panes: Vec<PaneId>,
    /// Which roles have their agent running.
    pub started: Vec<bool>,
    pub task_id: u64,
    pub checkpoints: Vec<Checkpoint>,
    pub started_at_ms: u64,
    pub guard_limits: GuardLimits,
    pub elapsed_guard_triggered: bool,
    pub elapsed_deadline: Option<u64>,
    pub stall_deadline: Option<u64>,
    pub idle_deadline: Option<u64>,
}

#[derive(Clone, Copy, Debug, PartialEq, Eq, Structural)]
pub enum SubmissionStatus {
    Done,
    NeedsInput,
    Failed,
}

/// A submission whose artifacts are being checked.
#[derive(Debug)]
pub struct PendingSubmission {
    pub kind: OrchestrationKind,
    pub task_id: u64,
    pub token: u64,
    pub pane: PaneId,
    pub status: SubmissionStatus,
    pub verdict: Option<String>,
    pub summary: String,
    pub due: u64,
}

/// A prompt that its Pane had no room for.
#[derive(Debug)]
pub struct PendingDelivery {
    pub kind: OrchestrationKind,
    pub task_id: u64,
    pub token: u64,
    pub pane: PaneId,
    pub bytes: Vec<u8>,
    pub first_delivery: bool,
    pub agent_id: String,
    pub attempts: u8,
    pub due: u64,
}

/// A relay turn that waits for its checkpoint.
#[derive(Debug)]
pub struct PendingRelayActivation {
    pub task_id: u64,
    pub role: usize,
    pub token: u64,
    pub handoff: Option<String>,
}

/// All live runs and what they wait for.
#[derive(Debug)]
pub struct Orchestrations {
    pub workflows: Vec<ActiveRun>,
    pub relays: Vec<ActiveRun>,
    pub submissions: Vec<PendingSubmission>,
    pub deliveries: Vec<PendingDelivery>,
    pub relay_activations: Vec<PendingRelayActivation>,
    pub token_state: u64,
}

impl ActiveRun {
    /// Every role has its provider, its Pane and its launch state, and the
    /// current role is one of them.
    pub open spec fn wf(self) -> bool {
        &&& self.state.cur < self.roles@.len()
        &&& self.role_providers@.len() == self.roles@.len()
        &&& self.role_panes@.len() == self.roles@.len()
        &&& self.started@.len() == self.roles@.len()
    }

    /// The Pane of the role whose turn it is.
    pub open spec fn current_pane(self) -> Option<PaneId> {
        if self.state.cur < self.role_panes@.len() {
            Some(self.role_panes@[self.state.cur as int])
        } else {
            None
        }
    }

    /// The turn is open in this Pane.
    pub open spec fn awaits_in(self, pane: PaneId) -> bool {
        self.current_pane() == Some(pane) && self.state.phase == Phase::Awaiting
    }

    /// The turn that was opened with this token in this Pane is still open.
    pub open spec fn owns_turn(self, task_id: u64, token: u64, pane: PaneId) -> bool {
        &&& self.task_id == task_id
        &&& self.state.token == token
        &&& self.current_pane() == Some(pane)
    }

    /// The run is over.
    pub open spec fn is_over(self) -> bool {
        self.state.phase == Phase::Done || self.state.phase == Phase::Aborted
    }

    /// The run can go on.
    pub open spec fn is_live(self) -> bool {
        self.state.phase == Phase::Awaiting || self.state.phase == Phase::Paused
    }

    /// When the run next needs attention. Its time limit counts only while a
    /// turn is open.
    pub open spec fn deadline(self) -> Option<u64> {
        sooner(
            sooner(self.stall_deadline, self.idle_deadline),
            if self.state.phase == Phase::Awaiting {
                self.elapsed_deadline
            } else {
                None
            },
        )
    }

    /// The Pane of the role whose turn it is.
    pub fn pane_of_turn(&self) -> (pane: Option<PaneId>)
        ensures
            pane == self.current_pane(),
    {
        if self.state.cur < self.role_panes.len() {
            Some(self.role_panes[self.state.cur])
        } else {
            None
        }
    }

    /// Whether the run is over.
    pub fn over(&self) -> (over: bool)
        ensures
            over == self.is_over(),
    {
        self.state.phase == Phase::Done || self.state.phase == Phase::Aborted
    }

    /// Whether the run can go on.
    pub fn live(&self) -> (live: bool)
        ensures
            live == self.is_live(),
    {
        self.state.phase == Phase::Awaiting || self.state.phase == Phase::Paused
    }

    fn turn_in(&self, pane: PaneId) -> (yes: bool)
        ensures
            yes == (self.current_pane() == Some(pane)),
    {
        match self.pane_of_turn() {
            Some(current) => current == pane,
            None => false,
        }
    }
}

/// The earlier of two deadlines.
pub open spec fn sooner(a: Option<u64>, b: Option<u64>) -> Option<u64> {
    match (a, b) {
        (Some(x), Some(y)) => if x <= y {
            a
        } else {
            b
        },
        (Some(_), None) => a,
        (None, _) => b,
    }
}

pub(crate) fn earlier(a: Option<u64>, b: Option<u64>) -> (at: Option<u64>)
    ensures
        at == sooner(a, b),
{
    match (a, b) {
        (Some(x), Some(y)) => if x <= y {
            a
        } else {
            b
        },
        (Some(_), None) => a,
        (None, _) => b,
    }
}

/// The earliest deadline of the first `n` submissions.
pub open spec fn submissions_due(list: Seq<PendingSubmission>, n: nat) -> Option<u64>
    decreases n,
{
    if n == 0 {
        None
    } else {
        sooner(submissions_due(list, (n - 1) as nat), Some(list[n - 1].due))
    }
}

/// The earliest deadline of the first `n` deliveries.
pub open spec fn deliveries_due(list: Seq<PendingDelivery>, n: nat) -> Option<u64>
    decreases n,
{
    if n == 0 {
        None
    } else {
        sooner(deliveries_due(list, (n - 1) as nat), Some(list[n - 1].due))
    }
}

/// The earliest deadline of the first `n` runs.
pub open spec fn runs_due(list: Seq<ActiveRun>, n: nat) -> Option<u64>
    decreases n,
{
    if n == 0 {
        None
    } else {
        sooner(runs_due(list, (n - 1) as nat), list[n - 1].deadline())
    }
}

/// When runs, deliveries or checks next need attention.
pub open spec fn orchestration_due(
    submissions: Seq<PendingSubmission>,
    deliveries: Seq<PendingDelivery>,
    workflows: Seq<ActiveRun>,
    relays: Seq<ActiveRun>,
) -> Option<u64> {
    sooner(
        sooner(
            submissions_due(submissions, submissions.len()),
            deliveries_due(deliveries, deliveries.len()),
        ),
        sooner(runs_due(workflows, workflows.len()), runs_due(relays, relays.len())),
    )
}

fn runs_deadline(runs: &[ActiveRun]) -> (at: Option<u64>)
    ensures
        at == runs_due(runs@, runs@.len()),
{
    let mut at: Option<u64> = None;
    let mut i: usize = 0;
    while i < runs.len()
        invariant
            i <= runs@.len(),
            at == runs_due(runs@, i as nat),
        decreases runs@.len() - i,
    {
        let elapsed: Option<u64> = if runs[i].state.phase == Phase::Awaiting {
            runs[i].elapsed_deadline
        } else {
            None
        };
        let own = earlier(earlier(runs[i].stall_deadline, runs[i].idle_deadline), elapsed);
        at = earlier(at, own);
        i += 1;
    }
    at
}

/// When runs, deliveries or checks next need attention; `None` where nothing
/// is armed.
pub fn next_orchestration_deadline(
    submissions: &[PendingSubmission],
    deliveries: &[PendingDelivery],
    workflows: &[ActiveRun],
    relays: &[ActiveRun],
) -> (at: Option<u64>)
    ensures
        at == orchestration_due(submissions@, deliveries@, workflows@, relays@),
{
    let mut checks: Option<u64> = None;
    let mut i: usize = 0;
    while i < submissions.len()
        invariant
            i <= submissions@.len(),
            checks == submissions_due(submissions@, i as nat),
        decreases submissions@.len() - i,
    {
        checks = earlier(checks, Some(submissions[i].due));
        i += 1;
    }
    let mut prompts: Option<u64> = None;
    let mut j: usize = 0;
    while j < deliveries.len()
        invariant
            j <= deliveries@.len(),
            prompts == deliveries_due(deliveries@, j as nat),
        decreases deliveries@.len() - j,
    {
        prompts = earlier(prompts, Some(deliveries[j].due));
        j += 1;
    }
    earlier(earlier(checks, prompts), earlier(runs_deadline(workflows), runs_deadline(relays)))
}

proof fn lemma_runs_due(list: Seq<ActiveRun>, n: nat, k: int, at: u64)
    requires
        0 <= k < n <= list.len(),
        list[k].deadline() == Some(at),
    ensures
        runs_due(list, n) matches Some(first) && first <= at,
    decreases n,
{
    if k < n - 1 {
        lemma_runs_due(list, (n - 1) as nat, k, at);
    }
}

/// No armed deadline of a run is slept through: the wakeup is no later than
/// any of them.
pub proof fn lemma_no_deadline_missed(
    submissions: Seq<PendingSubmission>,
    deliveries: Seq<PendingDelivery>,
    workflows: Seq<ActiveRun>,
    relays: Seq<ActiveRun>,
    k: int,
    at: u64,
)
    requires
        (0 <= k < workflows.len() && workflows[k].deadline() == Some(at)) || (0 <= k < relays.len()
            && relays[k].deadline() == Some(at)),
    ensures
        orchestration_due(submissions, deliveries, workflows, relays) matches Some(first)
            && first <= at,
{
    if 0 <= k < workflows.len() && workflows[k].deadline() == Some(at) {
        lemma_runs_due(workflows, workflows.len(), k, at);
    } else {
        lemma_runs_due(relays, relays.len(), k, at);
    }
}

/// Whether an idle role's turn may end by itself: never past a human, a check
/// under way, a verifier, or artifacts that are still owed.
pub fn orchestration_idle_allowed(
    has_waiting_item: bool,
    has_pending_validation: bool,
    verifier: bool,
    has_expected_artifacts: bool,
) -> (allowed: bool)
    ensures
        allowed == (!has_waiting_item && !has_pending_validation && !verifier
            && !has_expected_artifacts),
{
    !has_waiting_item && !has_pending_validation && !verifier && !has_expected_artifacts
}

/// Some submission with this token is being checked.
pub open spec fn checking(submissions: Seq<PendingSubmission>, token: u64) -> bool {
    exists|i: int| 0 <= i < submissions.len() && (#[trigger] submissions[i]).token == token
}

/// A run after the agent in `pane` was seen idle, or busy again.
pub open spec fn idle_reconciled(
    run: ActiveRun,
    submissions: Seq<PendingSubmission>,
    pane: PaneId,
    due: Option<u64>,
    waiting: bool,
) -> ActiveRun {
    if !run.awaits_in(pane) {
        run
    } else {
        let role = run.roles@[run.state.cur as int];
        let held = run.kind == OrchestrationKind::Workflow && (role.verifier
            || role.expected_artifacts@.len() > 0);
        ActiveRun {
            idle_deadline: if !waiting && !checking(submissions, run.state.token) && !held {
                due
            } else {
                None
            },
            ..run
        }
    }
}

pub(crate) fn is_checking(submissions: &Vec<PendingSubmission>, token: u64) -> (found: bool)
    ensures
        found == checking(submissions@, token),
{
    let mut i: usize = 0;
    while i < submissions.len()
        invariant
            i <= submissions@.len(),
            forall|j: int| 0 <= j < i ==> (#[trigger] submissions@[j]).token != token,
        decreases submissions@.len() - i,
    {
        if submissions[i].token == token {
            return true;
        }
        i += 1;
    }
    false
}

/// Every run of the list is well formed.
pub open spec fn all_wf(runs: Seq<ActiveRun>) -> bool {
    forall|i: int| 0 <= i < runs.len() ==> (#[trigger] runs[i]).wf()
}

fn reconcile_runs(
    runs: &mut Vec<ActiveRun>,
    submissions: &Vec<PendingSubmission>,
    pane: PaneId,
    due: Option<u64>,
    waiting: bool,
)
    requires
        all_wf(old(runs)@),
    ensures
        final(runs)@.len() == old(runs)@.len(),
        forall|k: int|
            0 <= k < old(runs)@.len() ==> #[trigger] final(runs)@[k] == idle_reconciled(
                old(runs)@[k],
                submissions@,
                pane,
                due,
                waiting,
            ),
{
    let ghost before = runs@;
    let mut i: usize = 0;
    while i < runs.len()
        invariant
            i <= runs@.len(),
            runs@.len() == before.len(),
            all_wf(before),
            forall|k: int|
                0 <= k < i ==> #[trigger] runs@[k] == idle_reconciled(
                    before[k],
                    submissions@,
                    pane,
                    due,
                    waiting,
                ),
            forall|k: int| i <= k < before.len() ==> #[trigger] runs@[k] == before[k],
        decreases runs@.len() - i,
    {
        assert(runs@[i as int] == before[i as int]);
        assert(before[i as int].wf());
        if runs[i].turn_in(pane) && runs[i].state.phase == Phase::Awaiting {
            let cur: usize = runs[i].state.cur;
            let workflow = runs[i].kind == OrchestrationKind::Workflow;
            let allowed = orchestration_idle_allowed(
                waiting,
                is_checking(submissions, runs[i].state.token),
                workflow && runs[i].roles[cur].verifier,
                workflow && runs[i].roles[cur].expected_artifacts.len() > 0,
            );
            runs[i].idle_deadline = if allowed {
                due
            } else {
                None
            };
        }
        i += 1;
    }
}

/// One step of the token generator; never zero.
pub open spec fn token_step(value: u64) -> u64 {
    let a = value ^ (value << 13u64);
    let b = a ^ (a >> 7u64);
    let c = b ^ (b << 17u64);
    if c == 0 {
        1
    } else {
        c
    }
}

/// The generator's state after `n` steps.
pub open spec fn token_after(value: u64, n: nat) -> u64
    decreases n,
{
    if n == 0 {
        value
    } else {
        token_step(token_after(value, (n - 1) as nat))
    }
}

/// Some run has its open turn under this token.
pub open spec fn opened(runs: Seq<ActiveRun>, token: u64) -> bool {
    exists|i: int| 0 <= i < runs.len() && (#[trigger] runs[i]).state.token == token
}

fn is_opened(runs: &Vec<ActiveRun>, token: u64) -> (found: bool)
    ensures
        found == opened(runs@, token),
{
    let mut i: usize = 0;
    while i < runs.len()
        invariant
            i <= runs@.len(),
            forall|j: int| 0 <= j < i ==> (#[trigger] runs@[j]).state.token != token,
        decreases runs@.len() - i,
    {
        if runs[i].state.token == token {
            return true;
        }
        i += 1;
    }
    false
}

/// What an engine asks for.
#[derive(Debug)]
pub enum Action {
    /// Open the turn of a role.
    Inject { role: usize, token: u64 },
    Complete,
    /// Ask a human.
    Escalate { reason: String },
    Abort { reason: String },
    AwaitSubmit,
    Hold,
}

impl Orchestrations {
    /// Every run is well formed and stands in the list of its kind.
    pub open spec fn wf(self) -> bool {
        &&& all_wf(self.workflows@)
        &&& all_wf(self.relays@)
        &&& forall|i: int|
            0 <= i < self.workflows@.len() ==> (#[trigger] self.workflows@[i]).kind
                == OrchestrationKind::Workflow
        &&& forall|i: int|
            0 <= i < self.relays@.len() ==> (#[trigger] self.relays@[i]).kind
                == OrchestrationKind::Relay
    }

    /// A turn or a check is under way with this token.
    pub open spec fn occupied(self, token: u64) -> bool {
        ||| opened(self.workflows@, token)
        ||| opened(self.relays@, token)
        ||| checking(self.submissions@, token)
    }

    /// `t` is the first token drawn that no turn and no check uses.
    pub open spec fn draws(self, t: u64) -> bool {
        exists|n: nat|
            #![trigger token_after(self.token_state, n)]
            {
                &&& 1 <= n
                &&& t == token_after(self.token_state, n)
                &&& forall|m: nat|
                    1 <= m < n ==> self.occupied(#[trigger] token_after(self.token_state, m))
            }
    }

    /// The runs of one kind.
    pub open spec fn runs(self, kind: OrchestrationKind) -> Seq<ActiveRun> {
        match kind {
            OrchestrationKind::Workflow => self.workflows@,
            OrchestrationKind::Relay => self.relays@,
        }
    }

    /// No runs yet; tokens are drawn from `seed`.
    pub fn new(seed: u64) -> (all: Orchestrations)
        ensures
            all.wf(),
            all.workflows@.len() == 0,
            all.relays@.len() == 0,
            all.submissions@.len() == 0,
            all.deliveries@.len() == 0,
            all.relay_activations@.len() == 0,
            all.token_state == seed,
    {
        Orchestrations {
            workflows: Vec::new(),
            relays: Vec::new(),
            submissions: Vec::new(),
            deliveries: Vec::new(),
            relay_activations: Vec::new(),
            token_state: seed,
        }
    }

    /// When runs, deliveries or checks next need attention.
    pub fn deadline(&self) -> (at: Option<u64>)
        ensures
            at == orchestration_due(
                self.submissions@,
                self.deliveries@,
                self.workflows@,
                self.relays@,
            ),
    {
        next_orchestration_deadline(
            self.submissions.as_slice(),
            self.deliveries.as_slice(),
            self.workflows.as_slice(),
            self.relays.as_slice(),
        )
    }

    /// Draw the next token that no turn and no check uses. `None` where each of
    /// the tokens that were drawn, as many as there are numbers, is in use.
    pub fn next_activation_token(&mut self) -> (token: Option<u64>)
        ensures
            match token {
                Some(t) => {
                    &&& t != 0
                    &&& !old(self).occupied(t)
                    &&& *final(self) == (Orchestrations { token_state: t, ..*old(self) })
                    &&& old(self).draws(t)
                },
                None => {
                    &&& forall|m: nat|
                        1 <= m <= u64::MAX ==> old(self).occupied(
                            #[trigger] token_after(old(self).token_state, m),
                        )
                    &&& *final(self) == (Orchestrations {
                        token_state: token_after(old(self).token_state, u64::MAX as nat),
                        ..*old(self)
                    })
                },
            },
    {
        let ghost seed = self.token_state;
        let mut tries: u64 = 0;
        while tries < 0xffff_ffff_ffff_ffff
            invariant
                seed == old(self).token_state,
                self.token_state == token_after(seed, tries as nat),
                *self == (Orchestrations { token_state: self.token_state, ..*old(self) }),
                forall|m: nat|
                    1 <= m <= tries ==> old(self).occupied(#[trigger] token_after(seed, m)),
            decreases u64::MAX - tries,
        {
            let value: u64 = self.token_state;
            let a: u64 = value ^ (value << 13u64);
            let b: u64 = a ^ (a >> 7u64);
            let c: u64 = b ^ (b << 17u64);
            let token: u64 = if c == 0 {
                1
            } else {
                c
            };
            self.token_state = token;
            tries += 1;
            assert(token == token_after(seed, tries as nat));
            if !(is_opened(&self.workflows, token) || is_opened(&self.relays, token)
                || is_checking(&self.submissions, token)) {
                return Some(token);
            }
        }
        None
    }

    /// Give an opened turn a token of its own. `None` where no token is free.
    pub fn scope_activation_token(&mut self, state: &mut EngineState, action: Action) -> (scoped:
        Option<Action>)
        ensures
            match action {
                Action::Inject { role, .. } => match scoped {
                    Some(out) => {
                        let t = final(state).token;
                        &&& out == (Action::Inject { role, token: t })
                        &&& t != 0
                        &&& !old(self).occupied(t)
                        &&& old(self).draws(t)
                        &&& *final(state) == (EngineState { token: t, ..*old(state) })
                        &&& *final(self) == (Orchestrations { token_state: t, ..*old(self) })
                    },
                    None => {
                        &&& *final(state) == *old(state)
                        &&& forall|m: nat|
                            1 <= m <= u64::MAX ==> old(self).occupied(
                                #[trigger] token_after(old(self).token_state, m),
                            )
                        &&& *final(self) == (Orchestrations {
                            token_state: token_after(old(self).token_state, u64::MAX as nat),
                            ..*old(self)
                        })
                    },
                },
                _ => scoped == Some(action) && *final(state) == *old(state) && *final(self)
                    == *old(self),
            },
    {
        match action {
            Action::Inject { role, token: _ } => match self.next_activation_token() {
                Some(token) => {
                    state.token = token;
                    Some(Action::Inject { role, token })
                },
                None => None,
            },
            other => Some(other),
        }
    }

    /// Arm or disarm the idle fallback of the runs whose turn is open in
    /// `pane`. `waiting` says whether a human is asked for something there.
    pub fn reconcile_orchestration_idle(
        &mut self,
        pane: PaneId,
        idle: bool,
        waiting: bool,
        now: u64,
    )
        requires
            old(self).wf(),
            now <= u64::MAX - IDLE_FALLBACK_MS,
        ensures
            final(self).wf(),
            *final(self) == (Orchestrations {
                workflows: final(self).workflows,
                relays: final(self).relays,
                ..*old(self)
            }),
            ({
                let due = if idle {
                    Some((now + IDLE_FALLBACK_MS) as u64)
                } else {
                    None
                };
                &&& final(self).workflows@.len() == old(self).workflows@.len()
                &&& final(self).relays@.len() == old(self).relays@.len()
                &&& forall|k: int|
                    0 <= k < old(self).workflows@.len() ==> #[trigger] final(self).workflows@[k]
                        == idle_reconciled(
                        old(self).workflows@[k],
                        old(self).submissions@,
                        pane,
                        due,
                        waiting,
                    )
                &&& forall|k: int|
                    0 <= k < old(self).relays@.len() ==> #[trigger] final(self).relays@[k]
                        == idle_reconciled(
                        old(self).relays@[k],
                        old(self).submissions@,
                        pane,
                        due,
                        waiting,
                    )
            }),
    {
        let due: Option<u64> = if idle {
            Some(now + IDLE_FALLBACK_MS)
        } else {
            None
        };
        reconcile_runs(&mut self.workflows, &self.submissions, pane, due, waiting);
        reconcile_runs(&mut self.relays, &self.submissions, pane, due, waiting);
    }
}

} // verus!
