//! Recording a live run, and what its record gives back after a restart.
use crate::orchestration::{
    ActiveRun, ArtifactClaim, Checkpoint, OrchestrationKind, Phase, RoleProvider, RunRole,
};
use crate::run_recovery::{
    live_at, provider_mismatch, provider_text, provider_texts, providers_of, rejection, revived,
    seen_agent, shape_error, some_pane_lost, some_provider_empty, DurableRun, GuardBounds,
    LivePane,
};
use crate::types::PaneId;
use vstd::prelude::*;

verus! {

/// Two artifacts are the same.
pub open spec fn same_claim(a: ArtifactClaim, b: ArtifactClaim) -> bool {
    a.kind == b.kind && a.path@ == b.path@
}

/// Two lists of artifacts are the same.
pub open spec fn same_claims(a: Seq<ArtifactClaim>, b: Seq<ArtifactClaim>) -> bool {
    a.len() == b.len() && forall|i: int| 0 <= i < a.len() ==> same_claim(#[trigger] a[i], b[i])
}

/// Two roles are the same.
pub open spec fn same_role(a: RunRole, b: RunRole) -> bool {
    a.name@ == b.name@ && a.verifier == b.verifier && same_claims(
        a.expected_artifacts@,
        b.expected_artifacts@,
    )
}

/// Two lists of roles are the same.
pub open spec fn same_roles(a: Seq<RunRole>, b: Seq<RunRole>) -> bool {
    a.len() == b.len() && forall|i: int| 0 <= i < a.len() ==> same_role(#[trigger] a[i], b[i])
}

/// Two lists of checkpoints are the same.
pub open spec fn same_checkpoints(a: Seq<Checkpoint>, b: Seq<Checkpoint>) -> bool {
    a.len() == b.len() && forall|i: int|
        0 <= i < a.len() ==> (#[trigger] a[i]).token == b[i].token && a[i].name@ == b[i].name@
}

/// The record of a run: its roles and providers, where each role works, how far
/// the run is, and its limits. Only a relay has checkpoints.
pub open spec fn records(d: DurableRun, run: ActiveRun) -> bool {
    &&& d.kind == run.kind
    &&& d.task_id == run.task_id
    &&& d.template == match run.kind {
        OrchestrationKind::Workflow => run.template,
        OrchestrationKind::Relay => None,
    }
    &&& d.goal == run.goal
    &&& same_roles(d.roles@, run.roles@)
    &&& provider_texts(d.role_providers@) == provider_texts(run.role_providers@)
    &&& d.agent_id@ == if run.role_providers@.len() > 0 {
        run.role_providers@[0].id@
    } else {
        Seq::empty()
    }
    &&& d.agent_cmd@ == if run.role_providers@.len() > 0 {
        run.role_providers@[0].command@
    } else {
        Seq::empty()
    }
    &&& d.role_panes@ == run.role_panes@
    &&& d.started@ == run.started@
    &&& d.state == run.state
    &&& match run.kind {
        OrchestrationKind::Workflow => d.checkpoints@.len() == 0,
        OrchestrationKind::Relay => same_checkpoints(d.checkpoints@, run.checkpoints@),
    }
    &&& d.started_at_ms == run.started_at_ms
    &&& d.limits == run.guard_limits
    &&& d.elapsed_triggered == run.elapsed_guard_triggered
}

fn copy_claims(list: &Vec<ArtifactClaim>) -> (out: Vec<ArtifactClaim>)
    ensures
        same_claims(out@, list@),
{
    let mut out: Vec<ArtifactClaim> = Vec::new();
    let mut i: usize = 0;
    while i < list.len()
        invariant
            i <= list@.len(),
            out@.len() == i,
            forall|k: int| 0 <= k < i ==> same_claim(#[trigger] out@[k], list@[k]),
        decreases list@.len() - i,
    {
        out.push(ArtifactClaim { kind: list[i].kind, path: list[i].path.clone() });
        i += 1;
    }
    out
}

fn copy_roles(list: &Vec<RunRole>) -> (out: Vec<RunRole>)
    ensures
        same_roles(out@, list@),
{
    let mut out: Vec<RunRole> = Vec::new();
    let mut i: usize = 0;
    while i < list.len()
        invariant
            i <= list@.len(),
            out@.len() == i,
            forall|k: int| 0 <= k < i ==> same_role(#[trigger] out@[k], list@[k]),
        decreases list@.len() - i,
    {
        let role = RunRole {
            name: list[i].name.clone(),
            verifier: list[i].verifier,
            expected_artifacts: copy_claims(&list[i].expected_artifacts),
        };
        assert(same_role(role, list@[i as int]));
        out.push(role);
        i += 1;
    }
    out
}

fn copy_providers(list: &Vec<RoleProvider>) -> (out: Vec<RoleProvider>)
    ensures
        provider_texts(out@) == provider_texts(list@),
{
    let mut out: Vec<RoleProvider> = Vec::new();
    let mut i: usize = 0;
    while i < list.len()
        invariant
            i <= list@.len(),
            out@.len() == i,
            forall|k: int|
                0 <= k < i ==> provider_text(#[trigger] out@[k]) == provider_text(list@[k]),
        decreases list@.len() - i,
    {
        out.push(RoleProvider { id: list[i].id.clone(), command: list[i].command.clone() });
        i += 1;
    }
    assert(provider_texts(out@) =~= provider_texts(list@));
    out
}

fn copy_checkpoints(list: &Vec<Checkpoint>) -> (out: Vec<Checkpoint>)
    ensures
        same_checkpoints(out@, list@),
{
    let mut out: Vec<Checkpoint> = Vec::new();
    let mut i: usize = 0;
    while i < list.len()
        invariant
            i <= list@.len(),
            out@.len() == i,
            forall|k: int|
                0 <= k < i ==> (#[trigger] out@[k]).token == list@[k].token && out@[k].name@
                    == list@[k].name@,
        decreases list@.len() - i,
    {
        out.push(Checkpoint { token: list[i].token, name: list[i].name.clone() });
        i += 1;
    }
    out
}

fn copy_panes(list: &Vec<PaneId>) -> (out: Vec<PaneId>)
    ensures
        out@ == list@,
{
    let mut out: Vec<PaneId> = Vec::new();
    let mut i: usize = 0;
    while i < list.len()
        invariant
            i <= list@.len(),
            out@ == list@.take(i as int),
        decreases list@.len() - i,
    {
        out.push(list[i]);
        i += 1;
        assert(out@ =~= list@.take(i as int));
    }
    assert(list@.take(i as int) =~= list@);
    out
}

fn copy_flags(list: &Vec<bool>) -> (out: Vec<bool>)
    ensures
        out@ == list@,
{
    let mut out: Vec<bool> = Vec::new();
    let mut i: usize = 0;
    while i < list.len()
        invariant
            i <= list@.len(),
            out@ == list@.take(i as int),
        decreases list@.len() - i,
    {
        out.push(list[i]);
        i += 1;
        assert(out@ =~= list@.take(i as int));
    }
    assert(list@.take(i as int) =~= list@);
    out
}

impl ActiveRun {
    /// The record of the run.
    pub fn durable(&self) -> (d: DurableRun)
        ensures
            records(d, *self),
    {
        let template = match self.kind {
            OrchestrationKind::Workflow => match &self.template {
                Some(name) => Some(name.clone()),
                None => None,
            },
            OrchestrationKind::Relay => None,
        };
        let checkpoints = match self.kind {
            OrchestrationKind::Workflow => Vec::new(),
            OrchestrationKind::Relay => copy_checkpoints(&self.checkpoints),
        };
        let (agent_id, agent_cmd) = if self.role_providers.len() > 0 {
            (self.role_providers[0].id.clone(), self.role_providers[0].command.clone())
        } else {
            (String::new(), String::new())
        };
        assert(self.role_providers@.len() == 0 ==> agent_id@ =~= Seq::empty() && agent_cmd@
            =~= Seq::empty());
        DurableRun {
            kind: self.kind,
            task_id: self.task_id,
            template,
            goal: self.goal.clone(),
            roles: copy_roles(&self.roles),
            role_providers: copy_providers(&self.role_providers),
            agent_id,
            agent_cmd,
            role_panes: copy_panes(&self.role_panes),
            started: copy_flags(&self.started),
            state: self.state,
            checkpoints,
            started_at_ms: self.started_at_ms,
            limits: self.guard_limits,
            elapsed_triggered: self.elapsed_guard_triggered,
        }
    }
}

/// A live run that may be brought back after a restart: a turn is open or the
/// run is paused, its limits are in range and agree, every role has a provider
/// that is named, and its form is that of its kind.
pub open spec fn restartable(run: ActiveRun, bounds: GuardBounds, template_roles: Option<usize>) -> bool {
    &&& run.wf()
    &&& run.state.phase == Phase::Awaiting || run.state.phase == Phase::Paused
    &&& run.guard_limits.valid(bounds)
    &&& run.guard_limits.max_iterations == run.state.max_iterations
    &&& run.state.token != 0
    &&& run.started_at_ms != 0
    &&& !some_provider_empty(run.role_providers@)
    &&& match run.kind {
        OrchestrationKind::Workflow => run.template is Some && template_roles == Some(
            run.role_panes@.len() as usize,
        ) && run.role_panes@.len() <= usize::MAX,
        OrchestrationKind::Relay => run.role_panes@.len() == 2,
    }
}

/// Every role's Pane was restored, and runs no other provider than the role's.
pub open spec fn panes_restored(run: ActiveRun, live: Seq<LivePane>) -> bool {
    forall|i: int|
        0 <= i < run.role_panes@.len() ==> live_at(live, #[trigger] run.role_panes@[i], 0) is Some
            && (seen_agent(live, run.role_panes@[i]) matches Some(seen) ==> seen
            == run.role_providers@[i].id@)
}

/// A recorded run whose Panes were restored is brought back, unless its token
/// was taken: with the same roles in the same Panes, the same providers, the
/// same turn, and the same limits counted from the same start.
pub proof fn lemma_recorded_run_recovers(
    run: ActiveRun,
    d: DurableRun,
    bounds: GuardBounds,
    template_roles: Option<usize>,
    live: Seq<LivePane>,
    tokens: Seq<u64>,
    now_ms: u64,
    clock_ms: u64,
    back: ActiveRun,
)
    requires
        records(d, run),
        restartable(run, bounds, template_roles),
        panes_restored(run, live),
        !tokens.contains(run.state.token),
    ensures
        rejection(d, bounds, template_roles, live, tokens) is None,
        revived(d, live, now_ms, clock_ms, back) ==> {
            &&& back.kind == run.kind
            &&& back.task_id == run.task_id
            &&& back.goal == run.goal
            &&& back.state == run.state
            &&& same_roles(back.roles@, run.roles@)
            &&& back.role_panes@ == run.role_panes@
            &&& provider_texts(back.role_providers@) == provider_texts(run.role_providers@)
            &&& back.started_at_ms == run.started_at_ms
            &&& back.guard_limits == run.guard_limits
            &&& back.elapsed_guard_triggered == run.elapsed_guard_triggered
        },
{
    assert(provider_texts(d.role_providers@).len() == provider_texts(run.role_providers@).len());
    assert(d.role_providers@.len() == run.role_providers@.len());
    assert forall|i: int| 0 <= i < d.role_providers@.len() implies provider_text(
        #[trigger] d.role_providers@[i],
    ) == provider_text(run.role_providers@[i]) by {
        assert(provider_texts(d.role_providers@)[i] == provider_texts(run.role_providers@)[i]);
    }
    assert(!some_provider_empty(d.role_providers@)) by {
        if some_provider_empty(d.role_providers@) {
            let i = choose|i: int|
                0 <= i < d.role_providers@.len() && ((#[trigger] d.role_providers@[i]).id@.len()
                    == 0 || d.role_providers@[i].command@.len() == 0);
            assert(provider_text(d.role_providers@[i]) == provider_text(run.role_providers@[i]));
            assert(run.role_providers@[i].id@.len() == 0 || run.role_providers@[i].command@.len()
                == 0);
        }
    }
    assert(!some_pane_lost(d.role_panes@, live));
    assert(shape_error(d, bounds, template_roles, live) is None);
    assert(providers_of(d) =~= provider_texts(run.role_providers@));
    assert(!provider_mismatch(d, live)) by {
        if provider_mismatch(d, live) {
            let i = choose|i: int|
                0 <= i < d.role_panes@.len() && i < providers_of(d).len() && (seen_agent(
                    live,
                    #[trigger] d.role_panes@[i],
                ) matches Some(seen) && seen != providers_of(d)[i].0);
            assert(run.role_panes@[i] == d.role_panes@[i]);
            assert(providers_of(d)[i] == provider_text(run.role_providers@[i]));
        }
    }
}

} // verus!
