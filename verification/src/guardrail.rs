//! Limits on automation: which Project a run belongs to, what a launch is
//! measured by, and when a run has taken too long.
use crate::hierarchy::{Project, Workspace};
use crate::orchestration::{ActiveRun, Orchestrations};
use crate::search_path::texts;
use crate::text::{push_text, same_text};
use crate::types::ProjectId;
use vstd::prelude::*;

verus! {

/// The limits that a run is held to.
#[derive(Clone, Copy, Debug, PartialEq, Eq, Structural)]
pub struct GuardLimits {
    pub max_elapsed_seconds: u64,
    pub max_iterations: u32,
    pub max_active_runs: u16,
    pub max_role_panes: u16,
}

/// Whole seconds since a run began.
pub fn elapsed_seconds(started_at_ms: u64, now_ms: u64) -> (seconds: u64)
    ensures
        seconds == if now_ms < started_at_ms {
            0
        } else {
            (now_ms - started_at_ms) / 1_000
        },
{
    now_ms.saturating_sub(started_at_ms) / 1_000
}

/// What is left of a run's time, in milliseconds.
pub open spec fn remaining_ms(started_at_ms: u64, now_ms: u64, limits: GuardLimits) -> u64 {
    let elapsed = if now_ms < started_at_ms {
        0
    } else {
        now_ms - started_at_ms
    };
    let limit = if limits.max_elapsed_seconds * 1_000 > u64::MAX {
        u64::MAX as int
    } else {
        limits.max_elapsed_seconds * 1_000
    };
    if limit < elapsed {
        0
    } else {
        (limit - elapsed) as u64
    }
}

/// When a run exceeds its time, on the server clock that stands at `clock_ms`
/// while the wall clock stands at `now_ms`. A run whose limit was reported
/// already needs no wakeup.
pub fn elapsed_deadline(
    started_at_ms: u64,
    limits: GuardLimits,
    already_triggered: bool,
    now_ms: u64,
    clock_ms: u64,
) -> (deadline: Option<u64>)
    ensures
        already_triggered ==> deadline is None,
        !already_triggered ==> deadline == Some(
            if clock_ms + remaining_ms(started_at_ms, now_ms, limits) > u64::MAX {
                u64::MAX
            } else {
                (clock_ms + remaining_ms(started_at_ms, now_ms, limits)) as u64
            },
        ),
{
    if already_triggered {
        return None;
    }
    let elapsed: u64 = now_ms.saturating_sub(started_at_ms);
    let limit: u64 = match limits.max_elapsed_seconds.checked_mul(1_000) {
        Some(ms) => ms,
        None => u64::MAX,
    };
    Some(clock_ms.saturating_add(limit.saturating_sub(elapsed)))
}

/// The Project that a selector names, by its name or its path; without one,
/// the active Project. The first from position `i` on.
pub open spec fn selected(
    projects: Seq<Project>,
    active: ProjectId,
    selector: Option<Seq<char>>,
    i: int,
) -> Option<int>
    decreases projects.len() - i,
{
    if i < 0 || i >= projects.len() {
        None
    } else if match selector {
        Some(text) => projects[i].name@ == text || projects[i].root@ == text,
        None => projects[i].id == active,
    } {
        Some(i)
    } else {
        selected(projects, active, selector, i + 1)
    }
}

proof fn lemma_selected(
    projects: Seq<Project>,
    active: ProjectId,
    selector: Option<Seq<char>>,
    i: int,
)
    requires
        i >= 0,
    ensures
        selected(projects, active, selector, i) matches Some(k) ==> i <= k < projects.len(),
    decreases projects.len() - i,
{
    if i < projects.len() {
        lemma_selected(projects, active, selector, i + 1);
    }
}

/// The text of an optional selector.
pub open spec fn selector_text(selector: Option<&str>) -> Option<Seq<char>> {
    match selector {
        Some(text) => Some(text@),
        None => None,
    }
}

/// A Project is allowed by its name, its path, or the repository that it is a
/// worktree of.
pub open spec fn allowed(
    project: Project,
    repository: Option<String>,
    configured: Seq<Seq<char>>,
) -> bool {
    ||| configured.contains(project.name@)
    ||| configured.contains(project.root@)
    ||| (repository matches Some(text) && configured.contains(text@))
}

/// The ids of the first `n` Projects that are allowed.
pub open spec fn allowed_ids(
    projects: Seq<Project>,
    repositories: Seq<Option<String>>,
    configured: Seq<Seq<char>>,
    n: nat,
) -> Seq<ProjectId>
    decreases n,
{
    if n == 0 {
        Seq::empty()
    } else {
        let rest = allowed_ids(projects, repositories, configured, (n - 1) as nat);
        if allowed(projects[n - 1], repositories[n - 1], configured) {
            rest.push(projects[n - 1].id)
        } else {
            rest
        }
    }
}

/// Which Projects automation may touch.
#[derive(Debug)]
pub struct GuardPolicy {
    pub limits: GuardLimits,
    pub projects_restricted: bool,
    pub allowed_projects: Vec<ProjectId>,
}

/// What a launch is measured by.
#[derive(Clone, Copy, Debug, PartialEq, Eq, Structural)]
pub struct LaunchFacts {
    pub project: ProjectId,
    pub requested_roles: u16,
    pub active_runs: u16,
    pub reserved_role_panes: u16,
}

/// A count that fits sixteen bits, or the largest that does.
pub open spec fn capped(n: int) -> u16 {
    if n > u16::MAX {
        u16::MAX
    } else {
        n as u16
    }
}

fn cap(n: usize) -> (out: u16)
    ensures
        out == capped(n as int),
{
    if n > 65535 {
        65535
    } else {
        n as u16
    }
}

fn holds(list: &Vec<String>, text: &str) -> (found: bool)
    ensures
        found == texts(list@).contains(text@),
{
    let mut i: usize = 0;
    while i < list.len()
        invariant
            i <= list@.len(),
            forall|j: int| 0 <= j < i ==> (#[trigger] list@[j])@ != text@,
        decreases list@.len() - i,
    {
        if same_text(list[i].as_str(), text) {
            assert(texts(list@)[i as int] == text@);
            return true;
        }
        i += 1;
    }
    proof {
        if texts(list@).contains(text@) {
            let k = choose|k: int| 0 <= k < texts(list@).len() && texts(list@)[k] == text@;
            assert(list@[k]@ == text@);
        }
    }
    false
}

/// The sum of the role counts of the live runs, or the largest size.
pub open spec fn total_roles(roles: Seq<usize>, n: nat) -> int
    decreases n,
{
    if n == 0 {
        0
    } else {
        let rest = total_roles(roles, (n - 1) as nat);
        if rest + roles[n - 1] > usize::MAX {
            usize::MAX as int
        } else {
            rest + roles[n - 1]
        }
    }
}

/// The decision of the guard on a launch.
#[derive(Debug)]
pub enum GuardDecision {
    Allow,
    Ask(String),
    Deny(String),
}

impl Workspace {
    /// The Project that a launch goes into.
    pub fn launch_target(&self, selector: Option<&str>) -> (found: Option<usize>)
        ensures
            crate::hierarchy::index_of(found) == selected(
                self@.projects,
                self@.active_project,
                selector_text(selector),
                0,
            ),
    {
        let mut i: usize = 0;
        while i < self.projects.len()
            invariant
                i <= self.projects@.len(),
                selected(self@.projects, self@.active_project, selector_text(selector), 0)
                    == selected(
                    self@.projects,
                    self@.active_project,
                    selector_text(selector),
                    i as int,
                ),
            decreases self.projects@.len() - i,
        {
            let matches = match selector {
                Some(text) => same_text(self.projects[i].name.as_str(), text) || same_text(
                    self.projects[i].root.as_str(),
                    text,
                ),
                None => self.projects[i].id == self.active_project,
            };
            if matches {
                return Some(i);
            }
            i += 1;
        }
        None
    }

    /// The policy for a launch. `repositories` names, for each Project, the
    /// repository that it is a worktree of.
    pub fn guard_policy(
        &self,
        limits: GuardLimits,
        configured: &Vec<String>,
        repositories: &Vec<Option<String>>,
    ) -> (policy: GuardPolicy)
        requires
            repositories@.len() == self@.projects.len(),
        ensures
            policy.limits == limits,
            policy.projects_restricted == (configured@.len() > 0),
            policy.allowed_projects@ == allowed_ids(
                self@.projects,
                repositories@,
                texts(configured@),
                self@.projects.len(),
            ),
    {
        let mut ids: Vec<ProjectId> = Vec::new();
        let mut i: usize = 0;
        while i < self.projects.len()
            invariant
                i <= self.projects@.len(),
                repositories@.len() == self.projects@.len(),
                ids@ == allowed_ids(
                    self.projects@,
                    repositories@,
                    texts(configured@),
                    i as nat,
                ),
            decreases self.projects@.len() - i,
        {
            let by_repository = match &repositories[i] {
                Some(text) => holds(configured, text.as_str()),
                None => false,
            };
            if holds(configured, self.projects[i].name.as_str()) || holds(
                configured,
                self.projects[i].root.as_str(),
            ) || by_repository {
                ids.push(self.projects[i].id);
            }
            i += 1;
        }
        GuardPolicy {
            limits,
            projects_restricted: configured.len() > 0,
            allowed_projects: ids,
        }
    }
}

/// Gather what a launch is measured by. `roles` are the role counts of the
/// live runs.
pub fn launch_facts(project: ProjectId, requested_roles: usize, roles: &Vec<usize>) -> (facts:
    LaunchFacts)
    ensures
        facts == (LaunchFacts {
            project,
            requested_roles: capped(requested_roles as int),
            active_runs: capped(roles@.len() as int),
            reserved_role_panes: capped(total_roles(roles@, roles@.len())),
        }),
{
    let mut total: usize = 0;
    let mut i: usize = 0;
    while i < roles.len()
        invariant
            i <= roles@.len(),
            total == total_roles(roles@, i as nat),
        decreases roles@.len() - i,
    {
        total = total.saturating_add(roles[i]);
        i += 1;
    }
    LaunchFacts {
        project,
        requested_roles: cap(requested_roles),
        active_runs: cap(roles.len()),
        reserved_role_panes: cap(total),
    }
}

/// Why a launch found no Project.
pub open spec fn unknown_reason(selector: Option<Seq<char>>) -> Seq<char> {
    match selector {
        Some(text) => "unknown Project '"@ + text + "' in this Workspace"@,
        None => "the active Project is not owned by this Workspace"@,
    }
}

/// Why a launch found no Project.
pub fn unknown_project(selector: Option<&str>) -> (reason: String)
    ensures
        reason@ == unknown_reason(selector_text(selector)),
{
    match selector {
        Some(text) => {
            let mut reason = "unknown Project '".to_owned();
            push_text(&mut reason, text);
            push_text(&mut reason, "' in this Workspace");
            reason
        },
        None => "the active Project is not owned by this Workspace".to_owned(),
    }
}

/// The role counts of the first `n` runs.
pub open spec fn role_counts(runs: Seq<ActiveRun>, n: nat) -> Seq<usize>
    decreases n,
{
    if n == 0 {
        Seq::empty()
    } else {
        role_counts(runs, (n - 1) as nat).push(runs[n - 1].role_panes@.len() as usize)
    }
}

fn push_role_counts(runs: &Vec<ActiveRun>, counts: &mut Vec<usize>)
    ensures
        final(counts)@ == old(counts)@ + role_counts(runs@, runs@.len()),
{
    let ghost head = counts@;
    let mut i: usize = 0;
    assert(counts@ =~= head + role_counts(runs@, 0));
    while i < runs.len()
        invariant
            i <= runs@.len(),
            counts@ == head + role_counts(runs@, i as nat),
        decreases runs@.len() - i,
    {
        let n: usize = runs[i].role_panes.len();
        counts.push(n);
        i += 1;
        assert(counts@ =~= head + role_counts(runs@, i as nat));
    }
}

/// A launch that is to be decided on, and where it goes.
#[derive(Debug)]
pub struct LaunchRequest {
    pub name: String,
    pub root: String,
    pub policy: GuardPolicy,
    pub facts: LaunchFacts,
}

impl Workspace {
    /// Find the Project of a launch and gather what the guard decides by: the
    /// policy, and the runs that are live already. Refused where the Workspace
    /// has no such Project.
    pub fn prepare_orchestration_launch(
        &self,
        selector: Option<&str>,
        requested_roles: usize,
        limits: GuardLimits,
        configured: &Vec<String>,
        repositories: &Vec<Option<String>>,
        runs: &Orchestrations,
    ) -> (request: Result<LaunchRequest, String>)
        requires
            repositories@.len() == self@.projects.len(),
        ensures
            match selected(self@.projects, self@.active_project, selector_text(selector), 0) {
                None => request matches Err(reason) && reason@ == unknown_reason(
                    selector_text(selector),
                ),
                Some(i) => {
                    let target = self@.projects[i];
                    let counts = role_counts(runs.workflows@, runs.workflows@.len()) + role_counts(
                        runs.relays@,
                        runs.relays@.len(),
                    );
                    &&& request matches Ok(r)
                    &&& r.name == target.name
                    &&& r.root == target.root
                    &&& r.policy.limits == limits
                    &&& r.policy.projects_restricted == (configured@.len() > 0)
                    &&& r.policy.allowed_projects@ == allowed_ids(
                        self@.projects,
                        repositories@,
                        texts(configured@),
                        self@.projects.len(),
                    )
                    &&& r.facts == (LaunchFacts {
                        project: target.id,
                        requested_roles: capped(requested_roles as int),
                        active_runs: capped(counts.len() as int),
                        reserved_role_panes: capped(total_roles(counts, counts.len())),
                    })
                },
            },
    {
        let at: usize = match self.launch_target(selector) {
            Some(i) => i,
            None => {
                return Err(unknown_project(selector));
            },
        };
        proof {
            lemma_selected(self@.projects, self@.active_project, selector_text(selector), 0);
        }
        let mut counts: Vec<usize> = Vec::new();
        push_role_counts(&runs.workflows, &mut counts);
        push_role_counts(&runs.relays, &mut counts);
        assert(counts@ =~= role_counts(runs.workflows@, runs.workflows@.len()) + role_counts(
            runs.relays@,
            runs.relays@.len(),
        ));
        let policy = self.guard_policy(limits, configured, repositories);
        let facts = launch_facts(self.projects[at].id, requested_roles, &counts);
        Ok(
            LaunchRequest {
                name: self.projects[at].name.clone(),
                root: self.projects[at].root.clone(),
                policy,
                facts,
            },
        )
    }
}

/// Whether a launch goes ahead: only where the guard allows it outright.
pub fn launch_permitted(decision: GuardDecision) -> (permitted: Result<(), String>)
    ensures
        match decision {
            GuardDecision::Allow => permitted is Ok,
            GuardDecision::Ask(reason) => permitted == Err::<(), String>(reason),
            GuardDecision::Deny(reason) => permitted == Err::<(), String>(reason),
        },
{
    match decision {
        GuardDecision::Allow => Ok(()),
        GuardDecision::Ask(reason) => Err(reason),
        GuardDecision::Deny(reason) => Err(reason),
    }
}

} // verus!
