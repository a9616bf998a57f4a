//! Runs that survive a restart: which recorded runs can go on, and how.
use crate::guardrail::{elapsed_deadline, GuardLimits};
use crate::orchestration::{
    ActiveRun, Checkpoint, EngineState, OrchestrationKind, Orchestrations, Phase, RoleProvider,
    RunRole, ORCHESTRATION_STALL_TIMEOUT_MS,
};
use crate::text::same_text;
use crate::types::PaneId;
use vstd::prelude::*;

verus! {

/// A run as it was recorded.
#[derive(Debug)]
pub struct DurableRun {
    pub kind: OrchestrationKind,
    pub task_id: u64,
    pub template: Option<String>,
    pub goal: String,
    pub roles: Vec<RunRole>,
    /// The provider of each role; older records have one for all roles instead.
    pub role_providers: Vec<RoleProvider>,
    pub agent_id: String,
    pub agent_cmd: String,
    pub role_panes: Vec<PaneId>,
    pub started: Vec<bool>,
    pub state: EngineState,
    pub checkpoints: Vec<Checkpoint>,
    /// Zero in older records.
    pub started_at_ms: u64,
    pub limits: GuardLimits,
    pub elapsed_triggered: bool,
}

/// The largest limits that a run may have.
#[derive(Clone, Copy, Debug, PartialEq, Eq, Structural)]
pub struct GuardBounds {
    pub max_elapsed_seconds: u64,
    pub max_iterations: u32,
    pub max_active_runs: u16,
    pub max_role_panes: u16,
}

impl GuardLimits {
    /// Every limit is at least one and within its bound.
    pub open spec fn valid(self, bounds: GuardBounds) -> bool {
        &&& 1 <= self.max_elapsed_seconds <= bounds.max_elapsed_seconds
        &&& 1 <= self.max_iterations <= bounds.max_iterations
        &&& 1 <= self.max_active_runs <= bounds.max_active_runs
        &&& 1 <= self.max_role_panes <= bounds.max_role_panes
    }

    /// Whether every limit is at least one and within its bound.
    pub fn validate(&self, bounds: GuardBounds) -> (valid: bool)
        ensures
            valid == self.valid(bounds),
    {
        1 <= self.max_elapsed_seconds && self.max_elapsed_seconds <= bounds.max_elapsed_seconds && 1
            <= self.max_iterations && self.max_iterations <= bounds.max_iterations && 1
            <= self.max_active_runs && self.max_active_runs <= bounds.max_active_runs && 1
            <= self.max_role_panes && self.max_role_panes <= bounds.max_role_panes
    }
}

/// A Pane that was restored, with the agent that was seen in it.
#[derive(Debug)]
pub struct LivePane {
    pub id: PaneId,
    pub agent: Option<String>,
}

/// The first Pane with this id, from position `i` on.
pub open spec fn live_at(live: Seq<LivePane>, id: PaneId, i: int) -> Option<int>
    decreases live.len() - i,
{
    if i < 0 || i >= live.len() {
        None
    } else if live[i].id == id {
        Some(i)
    } else {
        live_at(live, id, i + 1)
    }
}

/// The agent that was seen in a Pane.
pub open spec fn seen_agent(live: Seq<LivePane>, id: PaneId) -> Option<Seq<char>> {
    match live_at(live, id, 0) {
        Some(i) => crate::launch::opt_text(live[i].agent),
        None => None,
    }
}

fn find_live(live: &Vec<LivePane>, id: PaneId) -> (found: Option<usize>)
    ensures
        crate::hierarchy::index_of(found) == live_at(live@, id, 0),
        found matches Some(i) ==> i < live@.len(),
{
    let mut i: usize = 0;
    while i < live.len()
        invariant
            i <= live@.len(),
            live_at(live@, id, 0) == live_at(live@, id, i as int),
        decreases live@.len() - i,
    {
        if live[i].id == id {
            return Some(i);
        }
        i += 1;
    }
    None
}

/// Some provider of the list is not named.
pub open spec fn some_provider_empty(list: Seq<RoleProvider>) -> bool {
    exists|i: int|
        0 <= i < list.len() && ((#[trigger] list[i]).id@.len() == 0 || list[i].command@.len() == 0)
}

/// Some Pane of the list was not restored.
pub open spec fn some_pane_lost(list: Seq<PaneId>, live: Seq<LivePane>) -> bool {
    exists|i: int| 0 <= i < list.len() && live_at(live, #[trigger] list[i], 0) is None
}

/// Why a recorded run cannot go on; `None` where it can. `template_roles` is
/// the number of roles of the template that it names.
pub open spec fn shape_error(
    run: DurableRun,
    bounds: GuardBounds,
    template_roles: Option<usize>,
    live: Seq<LivePane>,
) -> Option<Seq<char>> {
    let roles = run.roles@.len();
    if run.state.phase != Phase::Awaiting && run.state.phase != Phase::Paused {
        Some("run was not in a restartable phase"@)
    } else if !run.limits.valid(bounds) {
        Some("run contained invalid guardrail limits"@)
    } else if !(1 <= run.state.max_iterations <= bounds.max_iterations) {
        Some("run contained an invalid state-machine iteration limit"@)
    } else if run.started_at_ms != 0 && run.limits.max_iterations != run.state.max_iterations {
        Some("run guardrail and state-machine iteration limits disagreed"@)
    } else if run.state.token == 0 {
        Some("run had no outstanding activation token"@)
    } else if run.state.cur >= roles {
        Some("current role was outside the role list"@)
    } else if run.role_panes@.len() != roles || run.started@.len() != run.role_panes@.len() {
        Some("role, Pane, and launch-state lengths disagreed"@)
    } else if run.role_providers@.len() != 0 && run.role_providers@.len() != roles {
        Some("role and provider-selection lengths disagreed"@)
    } else if run.role_providers@.len() == 0 && (run.agent_id@.len() == 0 || run.agent_cmd@.len()
        == 0) {
        Some("run had no recoverable provider ownership"@)
    } else if some_provider_empty(run.role_providers@) {
        Some("one or more role providers were empty"@)
    } else if some_pane_lost(run.role_panes@, live) {
        Some("one or more role Panes could not be restored"@)
    } else {
        match run.kind {
            OrchestrationKind::Workflow => if run.template is Some && (template_roles matches Some(
                n,
            ) && n == run.role_panes@.len()) {
                None
            } else {
                Some("workflow template was missing or incompatible"@)
            },
            OrchestrationKind::Relay => if run.role_panes@.len() != 2 {
                Some("relay did not contain exactly two roles"@)
            } else {
                None
            },
        }
    }
}

/// The text of an optional reason.
pub open spec fn reason_text(reason: Option<&'static str>) -> Option<Seq<char>> {
    match reason {
        Some(text) => Some(text@),
        None => None,
    }
}

fn any_provider_empty(list: &Vec<RoleProvider>) -> (found: bool)
    ensures
        found == some_provider_empty(list@),
{
    let mut i: usize = 0;
    while i < list.len()
        invariant
            i <= list@.len(),
            forall|j: int|
                0 <= j < i ==> !((#[trigger] list@[j]).id@.len() == 0 || list@[j].command@.len()
                    == 0),
        decreases list@.len() - i,
    {
        if list[i].id.as_str().is_empty() || list[i].command.as_str().is_empty() {
            assert(list@[i as int].id@.len() == 0 || list@[i as int].command@.len() == 0);
            return true;
        }
        i += 1;
    }
    false
}

fn any_pane_lost(list: &Vec<PaneId>, live: &Vec<LivePane>) -> (found: bool)
    ensures
        found == some_pane_lost(list@, live@),
{
    let mut i: usize = 0;
    while i < list.len()
        invariant
            i <= list@.len(),
            forall|j: int| 0 <= j < i ==> live_at(live@, #[trigger] list@[j], 0) is Some,
        decreases list@.len() - i,
    {
        if find_live(live, list[i]).is_none() {
            assert(live_at(live@, list@[i as int], 0) is None);
            return true;
        }
        i += 1;
    }
    false
}

/// Say why a recorded run cannot go on.
pub fn recovered_run_shape_error(
    run: &DurableRun,
    bounds: GuardBounds,
    template_roles: Option<usize>,
    live: &Vec<LivePane>,
) -> (reason: Option<&'static str>)
    ensures
        reason_text(reason) == shape_error(*run, bounds, template_roles, live@),
{
    if run.state.phase != Phase::Awaiting && run.state.phase != Phase::Paused {
        return Some("run was not in a restartable phase");
    }
    if !run.limits.validate(bounds) {
        return Some("run contained invalid guardrail limits");
    }
    if !(1 <= run.state.max_iterations && run.state.max_iterations <= bounds.max_iterations) {
        return Some("run contained an invalid state-machine iteration limit");
    }
    if run.started_at_ms != 0 && run.limits.max_iterations != run.state.max_iterations {
        return Some("run guardrail and state-machine iteration limits disagreed");
    }
    if run.state.token == 0 {
        return Some("run had no outstanding activation token");
    }
    if run.state.cur >= run.roles.len() {
        return Some("current role was outside the role list");
    }
    if run.role_panes.len() != run.roles.len() || run.started.len() != run.role_panes.len() {
        return Some("role, Pane, and launch-state lengths disagreed");
    }
    if run.role_providers.len() != 0 && run.role_providers.len() != run.roles.len() {
        return Some("role and provider-selection lengths disagreed");
    }
    if run.role_providers.len() == 0 && (run.agent_id.as_str().is_empty()
        || run.agent_cmd.as_str().is_empty()) {
        assert(run.agent_id@.len() == 0 || run.agent_cmd@.len() == 0);
        return Some("run had no recoverable provider ownership");
    }
    if any_provider_empty(&run.role_providers) {
        return Some("one or more role providers were empty");
    }
    if any_pane_lost(&run.role_panes, live) {
        return Some("one or more role Panes could not be restored");
    }
    match run.kind {
        OrchestrationKind::Workflow => {
            let compatible = match template_roles {
                Some(n) => n == run.role_panes.len(),
                None => false,
            };
            if run.template.is_some() && compatible {
                None
            } else {
                Some("workflow template was missing or incompatible")
            }
        },
        OrchestrationKind::Relay => if run.role_panes.len() != 2 {
            Some("relay did not contain exactly two roles")
        } else {
            None
        },
    }
}

/// What a provider is named, and how it is launched.
pub open spec fn provider_text(p: RoleProvider) -> (Seq<char>, Seq<char>) {
    (p.id@, p.command@)
}

/// The provider of each role of a recorded run: its own, or the one that older
/// records have for all.
pub open spec fn providers_of(run: DurableRun) -> Seq<(Seq<char>, Seq<char>)> {
    if run.role_providers@.len() == 0 {
        Seq::new(run.roles@.len(), |i: int| (run.agent_id@, run.agent_cmd@))
    } else {
        Seq::new(run.role_providers@.len(), |i: int| provider_text(run.role_providers@[i]))
    }
}

/// The names and commands of a list of providers.
pub open spec fn provider_texts(list: Seq<RoleProvider>) -> Seq<(Seq<char>, Seq<char>)> {
    Seq::new(list.len(), |i: int| provider_text(list[i]))
}

/// The provider of each role of a recorded run.
pub fn recovered_role_providers(run: &DurableRun) -> (providers: Vec<RoleProvider>)
    ensures
        provider_texts(providers@) == providers_of(*run),
{
    let mut providers: Vec<RoleProvider> = Vec::new();
    let mut i: usize = 0;
    if run.role_providers.len() == 0 {
        while i < run.roles.len()
            invariant
                i <= run.roles@.len(),
                providers@.len() == i,
                forall|k: int|
                    0 <= k < i ==> provider_text(#[trigger] providers@[k]) == (
                        run.agent_id@,
                        run.agent_cmd@,
                    ),
            decreases run.roles@.len() - i,
        {
            providers.push(
                RoleProvider { id: run.agent_id.clone(), command: run.agent_cmd.clone() },
            );
            i += 1;
        }
    } else {
        while i < run.role_providers.len()
            invariant
                i <= run.role_providers@.len(),
                providers@.len() == i,
                forall|k: int|
                    0 <= k < i ==> provider_text(#[trigger] providers@[k]) == provider_text(
                        run.role_providers@[k],
                    ),
            decreases run.role_providers@.len() - i,
        {
            providers.push(
                RoleProvider {
                    id: run.role_providers[i].id.clone(),
                    command: run.role_providers[i].command.clone(),
                },
            );
            i += 1;
        }
    }
    assert(provider_texts(providers@) =~= providers_of(*run));
    providers
}

/// Whether a restored Pane belongs to another provider than the recorded one.
pub fn restored_provider_conflicts(expected: &str, observed: Option<&str>) -> (conflicts: bool)
    ensures
        conflicts == (observed matches Some(seen) && seen@ != expected@),
{
    match observed {
        Some(seen) => !same_text(seen, expected),
        None => false,
    }
}

/// The role's provider was seen in its Pane.
pub open spec fn role_running(run: DurableRun, live: Seq<LivePane>, i: int) -> bool {
    seen_agent(live, run.role_panes@[i]) == Some(providers_of(run)[i].0)
}

/// Another provider was seen in the Pane of some role.
pub open spec fn provider_mismatch(run: DurableRun, live: Seq<LivePane>) -> bool {
    exists|i: int|
        0 <= i < run.role_panes@.len() && i < providers_of(run).len() && (seen_agent(
            live,
            #[trigger] run.role_panes@[i],
        ) matches Some(seen) && seen != providers_of(run)[i].0)
}

/// What became of a recorded run.
#[derive(Debug)]
pub enum Recovery {
    Rejected { kind: OrchestrationKind, task_id: u64, reason: &'static str },
    /// The run is live again. Where its agent is not, a human is asked in the
    /// Pane of its turn.
    Recovered { kind: OrchestrationKind, task_id: u64, ask: Option<PaneId> },
}

/// Why a recorded run is rejected; `None` where it is not. `tokens` are those
/// of the runs that were recovered before it.
pub open spec fn rejection(
    run: DurableRun,
    bounds: GuardBounds,
    template_roles: Option<usize>,
    live: Seq<LivePane>,
    tokens: Seq<u64>,
) -> Option<Seq<char>> {
    match shape_error(run, bounds, template_roles, live) {
        Some(reason) => Some(reason),
        None => if provider_mismatch(run, live) {
            Some("a restored Pane was owned by a different provider"@)
        } else if tokens.contains(run.state.token) {
            Some("activation token duplicated another recovered run"@)
        } else {
            None
        },
    }
}

/// The live run that a recorded one becomes.
pub open spec fn revived(
    run: DurableRun,
    live: Seq<LivePane>,
    now_ms: u64,
    clock_ms: u64,
    out: ActiveRun,
) -> bool {
    let begun = if run.started_at_ms == 0 {
        now_ms
    } else {
        run.started_at_ms
    };
    let limits = if run.started_at_ms == 0 {
        GuardLimits { max_iterations: run.state.max_iterations, ..run.limits }
    } else {
        run.limits
    };
    &&& out.kind == run.kind
    &&& out.state == run.state
    &&& out.template == run.template
    &&& out.goal == run.goal
    &&& out.roles == run.roles
    &&& provider_texts(out.role_providers@) == providers_of(run)
    &&& out.role_panes == run.role_panes
    &&& out.started@ == Seq::new(run.role_panes@.len(), |i: int| role_running(run, live, i))
    &&& out.task_id == run.task_id
    &&& out.checkpoints == run.checkpoints
    &&& out.started_at_ms == begun
    &&& out.guard_limits == limits
    &&& out.elapsed_guard_triggered == run.elapsed_triggered
    &&& out.elapsed_deadline == if run.state.phase == Phase::Awaiting {
        crate::run_flow::rearmed(out, run.elapsed_triggered, now_ms, clock_ms)
    } else {
        None
    }
    &&& out.stall_deadline == if role_running(run, live, run.state.cur as int) {
        Some((clock_ms + ORCHESTRATION_STALL_TIMEOUT_MS) as u64)
    } else {
        None
    }
    &&& out.idle_deadline is None
}

fn is_running(live: &Vec<LivePane>, pane: PaneId, provider: &str) -> (running: bool)
    ensures
        running == (seen_agent(live@, pane) == Some(provider@)),
{
    match find_live(live, pane) {
        Some(i) => match &live[i].agent {
            Some(seen) => same_text(seen.as_str(), provider),
            None => false,
        },
        None => false,
    }
}

fn is_mismatched(live: &Vec<LivePane>, pane: PaneId, provider: &str) -> (mismatched: bool)
    ensures
        mismatched == (seen_agent(live@, pane) matches Some(seen) && seen != provider@),
{
    match find_live(live, pane) {
        Some(i) => match &live[i].agent {
            Some(seen) => restored_provider_conflicts(provider, Some(seen.as_str())),
            None => false,
        },
        None => false,
    }
}

fn any_mismatch(run: &DurableRun, providers: &Vec<RoleProvider>, live: &Vec<LivePane>) -> (found:
    bool)
    requires
        provider_texts(providers@) == providers_of(*run),
    ensures
        found == provider_mismatch(*run, live@),
{
    let mut i: usize = 0;
    while i < run.role_panes.len() && i < providers.len()
        invariant
            i <= run.role_panes@.len(),
            i <= providers@.len(),
            provider_texts(providers@) == providers_of(*run),
            forall|k: int|
                0 <= k < i ==> !(seen_agent(live@, #[trigger] run.role_panes@[k]) matches Some(seen)
                    && seen != providers_of(*run)[k].0),
        decreases providers@.len() - i,
    {
        assert(provider_texts(providers@)[i as int] == provider_text(providers@[i as int]));
        assert(provider_texts(providers@).len() == providers@.len());
        if is_mismatched(live, run.role_panes[i], providers[i].id.as_str()) {
            assert(seen_agent(live@, run.role_panes@[i as int]) is Some);
            return true;
        }
        i += 1;
    }
    assert(provider_texts(providers@).len() == providers@.len());
    false
}

fn running_roles(run: &DurableRun, providers: &Vec<RoleProvider>, live: &Vec<LivePane>) -> (started:
    Vec<bool>)
    requires
        provider_texts(providers@) == providers_of(*run),
        run.role_panes@.len() == providers_of(*run).len(),
    ensures
        started@ == Seq::new(run.role_panes@.len(), |i: int| role_running(*run, live@, i)),
{
    let mut started: Vec<bool> = Vec::new();
    let mut i: usize = 0;
    assert(provider_texts(providers@).len() == providers@.len());
    while i < run.role_panes.len()
        invariant
            i <= run.role_panes@.len(),
            provider_texts(providers@) == providers_of(*run),
            run.role_panes@.len() == providers@.len(),
            started@.len() == i,
            forall|k: int| 0 <= k < i ==> #[trigger] started@[k] == role_running(*run, live@, k),
        decreases run.role_panes@.len() - i,
    {
        assert(provider_texts(providers@)[i as int] == provider_text(providers@[i as int]));
        started.push(is_running(live, run.role_panes[i], providers[i].id.as_str()));
        i += 1;
    }
    assert(started@ =~= Seq::new(run.role_panes@.len(), |i: int| role_running(*run, live@, i)));
    started
}

fn has_token(tokens: &Vec<u64>, token: u64) -> (found: bool)
    ensures
        found == tokens@.contains(token),
{
    let mut i: usize = 0;
    while i < tokens.len()
        invariant
            i <= tokens@.len(),
            forall|j: int| 0 <= j < i ==> tokens@[j] != token,
        decreases tokens@.len() - i,
    {
        if tokens[i] == token {
            assert(tokens@.contains(tokens@[i as int]));
            return true;
        }
        i += 1;
    }
    false
}

fn is_asked(waiting: &Vec<PaneId>, pane: PaneId) -> (found: bool)
    ensures
        found == waiting@.contains(pane),
{
    let mut i: usize = 0;
    while i < waiting.len()
        invariant
            i <= waiting@.len(),
            forall|j: int| 0 <= j < i ==> waiting@[j] != pane,
        decreases waiting@.len() - i,
    {
        if waiting[i] == pane {
            assert(waiting@.contains(waiting@[i as int]));
            return true;
        }
        i += 1;
    }
    false
}

impl Orchestrations {
    /// Bring back one recorded run, or say why not. `tokens` are those of the
    /// runs that were brought back before it, and `waiting` the Panes in which
    /// a human is asked.
    pub fn restore_orchestration(
        &mut self,
        run: DurableRun,
        bounds: GuardBounds,
        template_roles: Option<usize>,
        live: &Vec<LivePane>,
        tokens: &mut Vec<u64>,
        waiting: &mut Vec<PaneId>,
        now_ms: u64,
        clock_ms: u64,
    ) -> (recovery: Recovery)
        requires
            old(self).wf(),
            clock_ms <= u64::MAX - ORCHESTRATION_STALL_TIMEOUT_MS,
        ensures
            final(self).wf(),
            match rejection(run, bounds, template_roles, live@, old(tokens)@) {
                Some(why) => {
                    &&& recovery matches Recovery::Rejected { kind, task_id, reason }
                    &&& kind == run.kind
                    &&& task_id == run.task_id
                    &&& reason@ == why
                    &&& *final(self) == *old(self)
                    &&& final(tokens)@ == old(tokens)@
                    &&& final(waiting)@ == old(waiting)@
                },
                None => {
                    let pane = run.role_panes@[run.state.cur as int];
                    let ask = !role_running(run, live@, run.state.cur as int) && !old(
                        waiting,
                    )@.contains(pane);
                    &&& recovery == (Recovery::Recovered {
                        kind: run.kind,
                        task_id: run.task_id,
                        ask: if ask {
                            Some(pane)
                        } else {
                            None
                        },
                    })
                    &&& final(waiting)@ == if ask {
                        old(waiting)@.push(pane)
                    } else {
                        old(waiting)@
                    }
                    &&& final(tokens)@ == old(tokens)@.push(run.state.token)
                    &&& final(self).runs(run.kind).len() == old(self).runs(run.kind).len() + 1
                    &&& final(self).runs(run.kind).drop_last() == old(self).runs(run.kind)
                    &&& revived(
                        run,
                        live@,
                        now_ms,
                        clock_ms,
                        final(self).runs(run.kind).last(),
                    )
                    &&& *final(self) == match run.kind {
                        OrchestrationKind::Workflow => Orchestrations {
                            workflows: final(self).workflows,
                            ..*old(self)
                        },
                        OrchestrationKind::Relay => Orchestrations {
                            relays: final(self).relays,
                            ..*old(self)
                        },
                    }
                },
            },
    {
        match recovered_run_shape_error(&run, bounds, template_roles, live) {
            Some(reason) => {
                return Recovery::Rejected { kind: run.kind, task_id: run.task_id, reason };
            },
            None => {},
        }
        let providers = recovered_role_providers(&run);
        if any_mismatch(&run, &providers, live) {
            return Recovery::Rejected {
                kind: run.kind,
                task_id: run.task_id,
                reason: "a restored Pane was owned by a different provider",
            };
        }
        if has_token(tokens, run.state.token) {
            return Recovery::Rejected {
                kind: run.kind,
                task_id: run.task_id,
                reason: "activation token duplicated another recovered run",
            };
        }
        assert(provider_texts(providers@).len() == providers@.len());
        let cur: usize = run.state.cur;
        let pane = run.role_panes[cur];
        let started = running_roles(&run, &providers, live);
        let resumed = started[cur];
        let begun: u64 = if run.started_at_ms == 0 {
            now_ms
        } else {
            run.started_at_ms
        };
        let mut limits = run.limits;
        if run.started_at_ms == 0 {
            limits.max_iterations = run.state.max_iterations;
        }
        let due: Option<u64> = if run.state.phase == Phase::Awaiting {
            elapsed_deadline(begun, limits, run.elapsed_triggered, now_ms, clock_ms)
        } else {
            None
        };
        let kind = run.kind;
        let task_id: u64 = run.task_id;
        let token: u64 = run.state.token;
        let ghost given = run;
        let revived_run = ActiveRun {
            kind,
            state: run.state,
            template: run.template,
            goal: run.goal,
            roles: run.roles,
            role_providers: providers,
            role_panes: run.role_panes,
            started,
            task_id,
            checkpoints: run.checkpoints,
            started_at_ms: begun,
            guard_limits: limits,
            elapsed_guard_triggered: run.elapsed_triggered,
            elapsed_deadline: due,
            stall_deadline: if resumed {
                Some(clock_ms + ORCHESTRATION_STALL_TIMEOUT_MS)
            } else {
                None
            },
            idle_deadline: None,
        };
        assert(revived(given, live@, now_ms, clock_ms, revived_run));
        match kind {
            OrchestrationKind::Workflow => {
                let ghost before = self.workflows@;
                self.workflows.push(revived_run);
                assert(self.workflows@.drop_last() =~= before);
            },
            OrchestrationKind::Relay => {
                let ghost before = self.relays@;
                self.relays.push(revived_run);
                assert(self.relays@.drop_last() =~= before);
            },
        }
        tokens.push(token);
        let ask = if !resumed && !is_asked(waiting, pane) {
            waiting.push(pane);
            Some(pane)
        } else {
            None
        };
        Recovery::Recovered { kind, task_id, ask }
    }

    /// Bring back the recorded runs, in order. `template_roles` gives, for each,
    /// the number of roles of the template that it names. No two of them are
    /// brought back under one token.
    pub fn restore_orchestrations(
        &mut self,
        runs: Vec<DurableRun>,
        bounds: GuardBounds,
        template_roles: &Vec<Option<usize>>,
        live: &Vec<LivePane>,
        waiting: &mut Vec<PaneId>,
        now_ms: u64,
        clock_ms: u64,
    ) -> (recoveries: Vec<Recovery>)
        requires
            old(self).wf(),
            template_roles@.len() == runs@.len(),
            clock_ms <= u64::MAX - ORCHESTRATION_STALL_TIMEOUT_MS,
        ensures
            final(self).wf(),
            recoveries@.len() == runs@.len(),
            ({
                let all = Recording {
                    runs: runs@,
                    bounds,
                    template_roles: template_roles@,
                    live: live@,
                    waiting: old(waiting)@,
                };
                &&& forall|i: int|
                    0 <= i < runs@.len() ==> all.outcome(i, #[trigger] recoveries@[i])
                &&& all.tokens(runs@.len()).no_duplicates()
                &&& final(waiting)@ == all.asked(runs@.len())
                &&& extended(
                    old(self).workflows@,
                    final(self).workflows@,
                    all,
                    OrchestrationKind::Workflow,
                    runs@.len(),
                    now_ms,
                    clock_ms,
                )
                &&& extended(
                    old(self).relays@,
                    final(self).relays@,
                    all,
                    OrchestrationKind::Relay,
                    runs@.len(),
                    now_ms,
                    clock_ms,
                )
            }),
            *final(self) == (Orchestrations {
                workflows: final(self).workflows,
                relays: final(self).relays,
                ..*old(self)
            }),
    {
        let ghost all = Recording {
            runs: runs@,
            bounds,
            template_roles: template_roles@,
            live: live@,
            waiting: waiting@,
        };
        let mut rest = runs;
        let mut tokens: Vec<u64> = Vec::new();
        let mut recoveries: Vec<Recovery> = Vec::new();
        let mut i: usize = 0;
        assert(all.runs.skip(0) =~= all.runs);
        while rest.len() > 0
            invariant
                0 <= i <= all.runs.len(),
                self.wf(),
                all.bounds == bounds,
                all.template_roles == template_roles@,
                all.live == live@,
                all.waiting == old(waiting)@,
                template_roles@.len() == all.runs.len(),
                clock_ms <= u64::MAX - ORCHESTRATION_STALL_TIMEOUT_MS,
                rest@ == all.runs.skip(i as int),
                recoveries@.len() == i,
                tokens@ == all.tokens(i as nat),
                tokens@.no_duplicates(),
                waiting@ == all.asked(i as nat),
                *self == (Orchestrations {
                    workflows: self.workflows,
                    relays: self.relays,
                    ..*old(self)
                }),
                extended(
                    old(self).workflows@,
                    self.workflows@,
                    all,
                    OrchestrationKind::Workflow,
                    i as nat,
                    now_ms,
                    clock_ms,
                ),
                extended(
                    old(self).relays@,
                    self.relays@,
                    all,
                    OrchestrationKind::Relay,
                    i as nat,
                    now_ms,
                    clock_ms,
                ),
                forall|k: int| 0 <= k < i ==> all.outcome(k, #[trigger] recoveries@[k]),
            decreases rest@.len(),
        {
            let ghost workflows = self.workflows@;
            let ghost relays = self.relays@;
            assert(i < template_roles.len());
            let run = rest.remove(0);
            assert(run == all.runs[i as int]);
            assert(rest@ =~= all.runs.skip(i + 1));
            let recovery = self.restore_orchestration(
                run,
                bounds,
                template_roles[i],
                live,
                &mut tokens,
                waiting,
                now_ms,
                clock_ms,
            );
            recoveries.push(recovery);
            assert(tokens@ =~= all.tokens((i + 1) as nat));
            assert(waiting@ =~= all.asked((i + 1) as nat));
            proof {
                lemma_extended(
                    old(self).workflows@,
                    workflows,
                    self.workflows@,
                    all,
                    OrchestrationKind::Workflow,
                    i as nat,
                    now_ms,
                    clock_ms,
                );
                lemma_extended(
                    old(self).relays@,
                    relays,
                    self.relays@,
                    all,
                    OrchestrationKind::Relay,
                    i as nat,
                    now_ms,
                    clock_ms,
                );
            }
            i += 1;
        }
        recoveries
    }
}

/// Recorded runs and what they are held against.
#[verifier::ext_equal]
pub struct Recording {
    pub runs: Seq<DurableRun>,
    pub bounds: GuardBounds,
    pub template_roles: Seq<Option<usize>>,
    pub live: Seq<LivePane>,
    /// The Panes in which a human is asked already.
    pub waiting: Seq<PaneId>,
}

impl Recording {
    /// Why the run at `i` is rejected, given the tokens in use.
    pub open spec fn why(self, i: int, tokens: Seq<u64>) -> Option<Seq<char>> {
        rejection(self.runs[i], self.bounds, self.template_roles[i], self.live, tokens)
    }

    /// The tokens of the runs, among the first `n`, that are brought back.
    pub open spec fn tokens(self, n: nat) -> Seq<u64>
        decreases n,
    {
        if n == 0 {
            Seq::empty()
        } else {
            let had = self.tokens((n - 1) as nat);
            if self.why(n - 1, had) is Some {
                had
            } else {
                had.push(self.runs[n - 1].state.token)
            }
        }
    }

    /// The run at `i` is brought back.
    pub open spec fn back(self, i: int) -> bool {
        self.why(i, self.tokens(i as nat)) is None
    }

    /// The Pane of the turn of the run at `i`.
    pub open spec fn pane(self, i: int) -> PaneId {
        self.runs[i].role_panes@[self.runs[i].state.cur as int]
    }

    /// The run at `i` comes back without its agent, and nobody is asked there
    /// yet.
    pub open spec fn asks(self, i: int, asked: Seq<PaneId>) -> bool {
        self.back(i) && !role_running(self.runs[i], self.live, self.runs[i].state.cur as int)
            && !asked.contains(self.pane(i))
    }

    /// The Panes in which a human is asked after the first `n` runs.
    pub open spec fn asked(self, n: nat) -> Seq<PaneId>
        decreases n,
    {
        if n == 0 {
            self.waiting
        } else {
            let had = self.asked((n - 1) as nat);
            if self.asks(n - 1, had) {
                had.push(self.pane(n - 1))
            } else {
                had
            }
        }
    }

    /// A recovery says what became of the run at `i`.
    pub open spec fn outcome(self, i: int, recovery: Recovery) -> bool {
        match self.why(i, self.tokens(i as nat)) {
            Some(why) => recovery matches Recovery::Rejected { kind, task_id, reason } && kind
                == self.runs[i].kind && task_id == self.runs[i].task_id && reason@ == why,
            None => recovery == (Recovery::Recovered {
                kind: self.runs[i].kind,
                task_id: self.runs[i].task_id,
                ask: if self.asks(i, self.asked(i as nat)) {
                    Some(self.pane(i))
                } else {
                    None
                },
            }),
        }
    }

    /// The positions of the runs of one kind, among the first `n`, that are
    /// brought back.
    pub open spec fn revived(self, kind: OrchestrationKind, n: nat) -> Seq<int>
        decreases n,
    {
        if n == 0 {
            Seq::empty()
        } else {
            let had = self.revived(kind, (n - 1) as nat);
            if self.back(n - 1) && self.runs[n - 1].kind == kind {
                had.push(n - 1)
            } else {
                had
            }
        }
    }
}

/// The live runs of a kind with those brought back behind them, in order.
pub open spec fn extended(
    before: Seq<ActiveRun>,
    after: Seq<ActiveRun>,
    all: Recording,
    kind: OrchestrationKind,
    n: nat,
    now_ms: u64,
    clock_ms: u64,
) -> bool {
    let back = all.revived(kind, n);
    &&& after.len() == before.len() + back.len()
    &&& forall|k: int| 0 <= k < before.len() ==> #[trigger] after[k] == before[k]
    &&& forall|j: int|
        0 <= j < back.len() ==> revived(
            all.runs[#[trigger] back[j]],
            all.live,
            now_ms,
            clock_ms,
            after[before.len() + j],
        )
}

proof fn lemma_extended(
    first: Seq<ActiveRun>,
    before: Seq<ActiveRun>,
    after: Seq<ActiveRun>,
    all: Recording,
    kind: OrchestrationKind,
    n: nat,
    now_ms: u64,
    clock_ms: u64,
)
    requires
        n < all.runs.len(),
        extended(first, before, all, kind, n, now_ms, clock_ms),
        if all.back(n as int) && all.runs[n as int].kind == kind {
            &&& after.len() == before.len() + 1
            &&& after.drop_last() == before
            &&& revived(all.runs[n as int], all.live, now_ms, clock_ms, after.last())
        } else {
            after == before
        },
    ensures
        extended(first, after, all, kind, (n + 1) as nat, now_ms, clock_ms),
{
    let had = all.revived(kind, n);
    let back = all.revived(kind, (n + 1) as nat);
    if all.back(n as int) && all.runs[n as int].kind == kind {
        assert forall|k: int| 0 <= k < first.len() implies #[trigger] after[k] == first[k] by {
            assert(after.drop_last()[k] == before[k]);
        }
        assert forall|j: int| 0 <= j < back.len() implies revived(
            all.runs[#[trigger] back[j]],
            all.live,
            now_ms,
            clock_ms,
            after[first.len() + j],
        ) by {
            if j < had.len() {
                assert(had[j] == back[j]);
                assert(after.drop_last()[first.len() + j] == before[first.len() + j]);
            }
        }
    }
}

} // verus!
