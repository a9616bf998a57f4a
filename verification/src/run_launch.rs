//! Launching runs: the Tab with one Pane per role, the run's record, and its
//! first turn.
use crate::guardrail::{elapsed_deadline, GuardLimits};
use crate::hierarchy::{
    has_tab, known, lemma_activate, unshown, Win, Workspace, WorkspaceState,
};
use crate::import::spare;
use crate::layout::LayoutNode;
use crate::orchestration::{
    ActiveRun, Action, EngineState, OrchestrationKind, Orchestrations, PendingRelayActivation, Phase,
    RoleProvider, RunRole,
};
use crate::text::{clip, push_text, same_text, trim};
use crate::types::{PaneId, ProjectId, SplitDir};
use vstd::prelude::*;

verus! {

/// The most characters that are kept of a goal.
pub const MAX_GOAL_CHARS: usize = 65_536;

/// The first `n` role Panes side by side, each splitting the one before it.
pub open spec fn chained(panes: Seq<PaneId>, n: nat) -> LayoutNode
    decreases n,
{
    if n <= 1 {
        LayoutNode::Leaf(panes[0])
    } else {
        chained(panes, (n - 1) as nat).with_split(
            panes[n - 2],
            SplitDir::Vertical,
            panes[n - 1],
        )
    }
}

/// The layout of a run's Tab.
pub fn role_layout(panes: &Vec<PaneId>) -> (layout: LayoutNode)
    requires
        panes@.len() > 0,
    ensures
        layout == chained(panes@, panes@.len()),
{
    let mut layout = LayoutNode::Leaf(panes[0]);
    let mut i: usize = 1;
    while i < panes.len()
        invariant
            1 <= i <= panes@.len(),
            layout == chained(panes@, i as nat),
        decreases panes@.len() - i,
    {
        layout.split(panes[i - 1], SplitDir::Vertical, panes[i]);
        i += 1;
    }
    layout
}

proof fn lemma_split_last(node: LayoutNode, dir: SplitDir, new: PaneId)
    requires
        node.panes().no_duplicates(),
        !node.panes().contains(new),
    ensures
        node.with_split(node.panes().last(), dir, new).panes() == node.panes().push(new),
    decreases node,
{
    crate::layout::lemma_panes_nonempty(node);
    let at = node.panes().last();
    let out = node.with_split(at, dir, new);
    match node {
        LayoutNode::Leaf(id) => {
            assert(node.panes() =~= seq![id]);
            assert(out.panes() =~= seq![id, new]) by {
                reveal_with_fuel(LayoutNode::panes, 3);
            }
        },
        LayoutNode::Split { dir: d, ratio, first, second } => {
            let a = first.panes();
            let b = second.panes();
            crate::layout::lemma_panes_nonempty(*first);
            crate::layout::lemma_panes_nonempty(*second);
            assert(node.panes() =~= a + b);
            assert(at == b.last());
            assert forall|i: int| 0 <= i < a.len() implies a[i] != at by {
                assert(node.panes()[i] == a[i]);
                assert(node.panes()[node.panes().len() - 1] == at);
            }
            assert(!a.contains(at));
            assert forall|i: int, j: int| 0 <= i < b.len() && 0 <= j < b.len() && i != j implies b[i]
                != b[j] by {
                assert(node.panes()[a.len() + i] == b[i]);
                assert(node.panes()[a.len() + j] == b[j]);
            }
            assert forall|i: int| 0 <= i < b.len() implies b[i] != new by {
                assert(node.panes()[a.len() + i] == b[i]);
                assert(node.panes().contains(b[i]));
            }
            assert(!b.contains(new));
            crate::layout::lemma_with_split(*first, at, dir, new);
            lemma_split_last(*second, dir, new);
            assert(out.panes() =~= a + b.push(new));
            assert(a + b.push(new) =~= (a + b).push(new));
        },
    }
}

/// The Tab of a run shows the Panes of its roles in order.
pub proof fn lemma_role_layout(panes: Seq<PaneId>, n: nat)
    requires
        1 <= n <= panes.len(),
        panes.no_duplicates(),
    ensures
        chained(panes, n).panes() == panes.take(n as int),
    decreases n,
{
    if n == 1 {
        assert(chained(panes, n).panes() =~= panes.take(1));
    } else {
        let before = chained(panes, (n - 1) as nat);
        lemma_role_layout(panes, (n - 1) as nat);
        assert(before.panes() == panes.take(n - 1));
        let shown = panes.take(n - 1);
        assert forall|i: int, j: int|
            0 <= i < shown.len() && 0 <= j < shown.len() && i != j implies shown[i] != shown[j] by {
            assert(panes[i] != panes[j]);
        }
        assert(!shown.contains(panes[n - 1])) by {
            if shown.contains(panes[n - 1]) {
                let k = choose|k: int| 0 <= k < shown.len() && shown[k] == panes[n - 1];
                assert(panes[k] == panes[n - 1]);
            }
        }
        lemma_split_last(before, SplitDir::Vertical, panes[n - 1]);
        assert(panes.take(n - 1).push(panes[n - 1]) =~= panes.take(n as int));
    }
}

/// The title of a run's task.
pub open spec fn launch_title(
    kind: OrchestrationKind,
    project: Seq<char>,
    name: Seq<char>,
    goal: Seq<char>,
) -> Seq<char> {
    match kind {
        OrchestrationKind::Workflow => "# project "@ + project + ": workflow "@ + name + ": "@
            + crate::text::trimmed(goal),
        OrchestrationKind::Relay => "# project "@ + project + ": relay: "@ + crate::text::trimmed(
            goal,
        ),
    }
}

/// Write the title of a run's task.
pub fn run_title(kind: OrchestrationKind, project: &str, name: &str, goal: &str) -> (title: String)
    ensures
        title@ == launch_title(kind, project@, name@, goal@),
{
    let mut title = "# project ".to_owned();
    push_text(&mut title, project);
    match kind {
        OrchestrationKind::Workflow => {
            push_text(&mut title, ": workflow ");
            push_text(&mut title, name);
            push_text(&mut title, ": ");
        },
        OrchestrationKind::Relay => {
            push_text(&mut title, ": relay: ");
        },
    }
    push_text(&mut title, trim(goal).as_str());
    title
}

/// The name of a run's Tab.
pub open spec fn tab_title(kind: OrchestrationKind, name: Seq<char>) -> Seq<char> {
    match kind {
        OrchestrationKind::Workflow => "wf:"@ + name,
        OrchestrationKind::Relay => "relay"@,
    }
}

/// Write the name of a run's Tab.
pub fn run_tab_name(kind: OrchestrationKind, name: &str) -> (title: String)
    ensures
        title@ == tab_title(kind, name@),
{
    match kind {
        OrchestrationKind::Workflow => {
            let mut title = "wf:".to_owned();
            push_text(&mut title, name);
            title
        },
        OrchestrationKind::Relay => "relay".to_owned(),
    }
}

/// Whether a workflow can be launched: its template exists, with `roles` roles,
/// and every role got a provider.
pub fn check_workflow(name: &str, roles: Option<usize>, providers: usize) -> (checked: Result<
    (),
    String,
>)
    ensures
        match roles {
            None => checked matches Err(why) && why@ == "unknown workflow template '"@ + name@
                + "' (expected solo, pair, or triad)"@,
            Some(n) => if n != providers {
                checked matches Err(why) && why@
                    == "provider resolution returned an incomplete role mapping"@
            } else {
                checked is Ok
            },
        },
{
    match roles {
        None => {
            let mut why = "unknown workflow template '".to_owned();
            push_text(&mut why, name);
            push_text(&mut why, "' (expected solo, pair, or triad)");
            Err(why)
        },
        Some(n) => if n != providers {
            Err("provider resolution returned an incomplete role mapping".to_owned())
        } else {
            Ok(())
        },
    }
}

/// Whether every role got its Pane; `spawned` Panes could be made.
pub fn check_role_panes(kind: OrchestrationKind, roles: usize, spawned: usize) -> (checked: Result<
    (),
    String,
>)
    ensures
        checked is Ok <==> roles == spawned,
        checked matches Err(why) ==> why@ == match kind {
            OrchestrationKind::Workflow => "could not create every workflow role Pane"@,
            OrchestrationKind::Relay => "could not create both relay role Panes"@,
        },
{
    if roles == spawned {
        return Ok(());
    }
    match kind {
        OrchestrationKind::Workflow => Err("could not create every workflow role Pane".to_owned()),
        OrchestrationKind::Relay => Err("could not create both relay role Panes".to_owned()),
    }
}

fn none_started(n: usize) -> (started: Vec<bool>)
    ensures
        started@ == Seq::new(n as nat, |i: int| false),
{
    let mut started: Vec<bool> = Vec::new();
    while started.len() < n
        invariant
            started@.len() <= n,
            forall|i: int| 0 <= i < started@.len() ==> !(#[trigger] started@[i]),
        decreases n - started@.len(),
    {
        started.push(false);
    }
    assert(started@ =~= Seq::new(n as nat, |i: int| false));
    started
}

/// The two roles of a relay: the builder, and the one named by the caller who
/// looks over what was built. Neither decides alone, and neither owes files.
pub fn relay_roles(second: String) -> (roles: Vec<RunRole>)
    ensures
        roles@.len() == 2,
        roles@[0].name@ == "builder"@,
        roles@[1].name == second,
        forall|i: int|
            0 <= i < 2 ==> !(#[trigger] roles@[i]).verifier && roles@[i].expected_artifacts@.len()
                == 0,
{
    let mut roles: Vec<RunRole> = Vec::new();
    roles.push(
        RunRole { name: "builder".to_owned(), verifier: false, expected_artifacts: Vec::new() },
    );
    roles.push(RunRole { name: second, verifier: false, expected_artifacts: Vec::new() });
    roles
}

/// Set up a run that has not begun. Its time counts from the start.
pub fn new_run(
    kind: OrchestrationKind,
    template: Option<String>,
    goal: &str,
    roles: Vec<RunRole>,
    role_providers: Vec<RoleProvider>,
    role_panes: Vec<PaneId>,
    task_id: u64,
    started_at_ms: u64,
    guard_limits: GuardLimits,
    now_ms: u64,
    clock_ms: u64,
) -> (run: ActiveRun)
    requires
        roles@.len() > 0,
        role_providers@.len() == roles@.len(),
        role_panes@.len() == roles@.len(),
    ensures
        run.wf(),
        run == (ActiveRun {
            kind,
            state: EngineState {
                phase: Phase::Idle,
                token: 0,
                cur: 0,
                max_iterations: guard_limits.max_iterations,
            },
            template,
            goal: run.goal,
            roles,
            role_providers,
            role_panes,
            started: run.started,
            task_id,
            checkpoints: run.checkpoints,
            started_at_ms,
            guard_limits,
            elapsed_guard_triggered: false,
            elapsed_deadline: crate::run_flow::rearmed(run, false, now_ms, clock_ms),
            stall_deadline: None,
            idle_deadline: None,
        }),
        run.goal@ == crate::text::clipped(goal@, MAX_GOAL_CHARS as nat),
        run.started@ == Seq::new(roles@.len(), |i: int| false),
        run.checkpoints@.len() == 0,
{
    let started = none_started(roles.len());
    let elapsed = elapsed_deadline(started_at_ms, guard_limits, false, now_ms, clock_ms);
    ActiveRun {
        kind,
        state: EngineState {
            phase: Phase::Idle,
            token: 0,
            cur: 0,
            max_iterations: guard_limits.max_iterations,
        },
        template,
        goal: clip(goal, MAX_GOAL_CHARS),
        roles,
        role_providers,
        role_panes,
        started,
        task_id,
        checkpoints: Vec::new(),
        started_at_ms,
        guard_limits,
        elapsed_guard_triggered: false,
        elapsed_deadline: elapsed,
        stall_deadline: None,
        idle_deadline: None,
    }
}

/// How a relay turn begins.
#[derive(Debug)]
pub enum RelayStart {
    /// The turn waits until a copy of the Project at `root` was made.
    Checkpoint { role: usize, token: u64, root: String },
    /// The action is carried out at once.
    Act(Action),
}

/// Decide how a relay turn begins: a builder's waits for a checkpoint, where
/// its Pane belongs to a Project.
pub fn plan_relay_turn(run: &ActiveRun, action: Action, workspace: &Workspace) -> (start: RelayStart)
    requires
        run.wf(),
        action matches Action::Inject { role, .. } ==> role < run.roles@.len(),
    ensures
        match action {
            Action::Inject { role, token } => if run.roles@[role as int].name@ == "builder"@ {
                match crate::run_submit::root_of_pane(workspace@, run.role_panes@[role as int]) {
                    Some(root) => start == (RelayStart::Checkpoint { role, token, root }),
                    None => start == RelayStart::Act(action),
                }
            } else {
                start == RelayStart::Act(action)
            },
            _ => start == RelayStart::Act(action),
        },
{
    match action {
        Action::Inject { role, token } => {
            if same_text(run.roles[role].name.as_str(), "builder") {
                match workspace.project_root_for_pane(run.role_panes[role]) {
                    Some(root) => {
                        return RelayStart::Checkpoint { role, token, root };
                    },
                    None => {},
                }
            }
            RelayStart::Act(Action::Inject { role, token })
        },
        other => RelayStart::Act(other),
    }
}

impl Orchestrations {
    /// Hold a relay turn until its checkpoint was made.
    pub fn await_checkpoint(&mut self, task_id: u64, role: usize, token: u64, handoff: Option<
        String,
    >)
        ensures
            final(self).relay_activations@ == old(self).relay_activations@.push(
                PendingRelayActivation { task_id, role, token, handoff },
            ),
            *final(self) == (Orchestrations {
                relay_activations: final(self).relay_activations,
                ..*old(self)
            }),
    {
        self.relay_activations.push(PendingRelayActivation { task_id, role, token, handoff });
    }

    /// Keep a run that can go on; whether it was kept.
    pub fn keep_live(&mut self, run: ActiveRun) -> (kept: bool)
        requires
            old(self).wf(),
            run.wf(),
        ensures
            final(self).wf(),
            kept == run.is_live(),
            kept ==> final(self).runs(run.kind) == old(self).runs(run.kind).push(run),
            !kept ==> *final(self) == *old(self),
            *final(self) == match run.kind {
                OrchestrationKind::Workflow => Orchestrations {
                    workflows: final(self).workflows,
                    ..*old(self)
                },
                OrchestrationKind::Relay => Orchestrations {
                    relays: final(self).relays,
                    ..*old(self)
                },
            },
    {
        if run.live() {
            self.return_run(run);
            true
        } else {
            false
        }
    }
}

/// The Tab of a run.
pub open spec fn run_tab(project: ProjectId, panes: Seq<PaneId>, name: String) -> Win {
    Win {
        project,
        layout: chained(panes, panes.len()),
        active: panes[0],
        zoomed: None,
        name: Some(name),
    }
}

/// The Workspace once the Tab of a run was opened and shown.
pub open spec fn with_run_tab(s: WorkspaceState, tab: Win) -> WorkspaceState {
    (WorkspaceState { windows: s.windows.push(tab), ..s }).activate(s.windows.len() as int)
}

proof fn lemma_run_tab(s: WorkspaceState, project: ProjectId, panes: Seq<PaneId>, name: String)
    requires
        s.wf(),
        known(s.projects, project),
        panes.len() > 0,
        spare(s.windows, panes),
    ensures
        with_run_tab(s, run_tab(project, panes, name)).wf(),
        s.all_open() ==> with_run_tab(s, run_tab(project, panes, name)).all_open(),
{
    let tab = run_tab(project, panes, name);
    let next = WorkspaceState { windows: s.windows.push(tab), ..s };
    lemma_role_layout(panes, panes.len());
    assert(panes.take(panes.len() as int) =~= panes);
    assert(tab.layout.panes() == panes);
    assert(tab.shows(panes[0]));
    assert forall|i: int, j: int, pane: PaneId|
        0 <= i < next.windows.len() && 0 <= j < next.windows.len()
            && #[trigger] next.windows[i].shows(pane) && #[trigger] next.windows[j].shows(
            pane,
        ) implies i == j by {
        let last = s.windows.len() as int;
        if i == last && j < last || j == last && i < last {
            assert(panes.contains(pane));
            let k = choose|k: int| 0 <= k < panes.len() && panes[k] == pane;
            assert(unshown(s.windows, panes[k]));
        } else if i < last {
            assert(s.windows[i].shows(pane));
            assert(s.windows[j].shows(pane));
        }
    }
    assert forall|i: int| 0 <= i < next.windows.len() implies (#[trigger] next.windows[i]).wf()
        && known(next.projects, next.windows[i].project) by {
        if i < s.windows.len() {
            assert(s.windows[i].wf());
        }
    }
    if s.all_open() {
        assert forall|i: int| 0 <= i < next.projects.len() implies has_tab(
            next.windows,
            (#[trigger] next.projects[i]).id,
        ) by {
            let id = s.projects[i].id;
            assert(has_tab(s.windows, id));
            let k = choose|k: int|
                0 <= k < s.windows.len() && (#[trigger] s.windows[k]).project == id;
            assert(next.windows[k].project == id);
        }
    }
    lemma_activate(next, s.windows.len() as int);
}

/// What a run's record says of a role.
#[derive(Debug)]
pub struct RoleRecord {
    pub name: String,
    pub pane: PaneId,
    pub provider: String,
}

/// What the record says of the first `n` roles.
pub open spec fn role_records(run: ActiveRun, n: nat) -> Seq<RoleRecord>
    decreases n,
{
    if n == 0 {
        Seq::empty()
    } else {
        role_records(run, (n - 1) as nat).push(
            RoleRecord {
                name: run.roles@[n - 1].name,
                pane: run.role_panes@[n - 1],
                provider: run.role_providers@[n - 1].id,
            },
        )
    }
}

/// Gather what a run's record says of its roles.
pub fn list_roles(run: &ActiveRun) -> (list: Vec<RoleRecord>)
    requires
        run.wf(),
    ensures
        list@ == role_records(*run, run.roles@.len()),
{
    let mut list: Vec<RoleRecord> = Vec::new();
    let mut i: usize = 0;
    while i < run.roles.len()
        invariant
            i <= run.roles@.len(),
            run.wf(),
            list@ == role_records(*run, i as nat),
        decreases run.roles@.len() - i,
    {
        list.push(
            RoleRecord {
                name: run.roles[i].name.clone(),
                pane: run.role_panes[i],
                provider: run.role_providers[i].id.clone(),
            },
        );
        i += 1;
    }
    list
}

/// What is launched, once the guard allowed it.
#[derive(Debug)]
pub struct Launch {
    pub kind: OrchestrationKind,
    /// The workflow's name; a relay has none.
    pub name: String,
    pub goal: String,
    pub project: ProjectId,
    pub project_name: String,
    pub roles: Vec<RunRole>,
    pub role_providers: Vec<RoleProvider>,
    pub limits: GuardLimits,
    pub started_at_ms: u64,
    pub task_id: u64,
}

/// A run that is set up, and what is recorded of it.
#[derive(Debug)]
pub struct Launched {
    pub run: ActiveRun,
    pub title: String,
    pub roles: Vec<RoleRecord>,
}

impl Workspace {
    /// Open the Tab of a run and switch to it; whether that changed what is
    /// shown.
    pub fn open_run_tab(&mut self, project: ProjectId, panes: &Vec<PaneId>, name: String) -> (changed:
        bool)
        requires
            old(self)@.wf(),
            known(old(self)@.projects, project),
            panes@.len() > 0,
            spare(old(self)@.windows, panes@),
        ensures
            final(self)@ == with_run_tab(old(self)@, run_tab(project, panes@, name)),
            final(self)@.wf(),
            old(self)@.all_open() ==> final(self)@.all_open(),
            changed,
    {
        proof {
            lemma_run_tab(self@, project, panes@, name);
        }
        let layout = role_layout(panes);
        let index: usize = self.windows.len();
        self.windows.push(
            Win { project, layout, active: panes[0], zoomed: None, name: Some(name) },
        );
        self.activate_window(index)
    }

    /// Set up a run once the Panes of its roles were tried: `panes` are those
    /// that could be made. With one missing nothing is shown; otherwise the run
    /// gets its Tab, its record and its title.
    pub fn set_up_run(&mut self, launch: Launch, panes: Vec<PaneId>, now_ms: u64, clock_ms: u64) -> (
        launched: Result<Launched, String>)
        requires
            old(self)@.wf(),
            known(old(self)@.projects, launch.project),
            launch.roles@.len() > 0,
            launch.role_providers@.len() == launch.roles@.len(),
            spare(old(self)@.windows, panes@),
        ensures
            final(self)@.wf(),
            match launched {
                Err(why) => {
                    &&& panes@.len() != launch.roles@.len()
                    &&& final(self)@ == old(self)@
                    &&& why@ == match launch.kind {
                        OrchestrationKind::Workflow => "could not create every workflow role Pane"@,
                        OrchestrationKind::Relay => "could not create both relay role Panes"@,
                    }
                },
                Ok(done) => {
                    &&& panes@.len() == launch.roles@.len()
                    &&& final(self)@ == with_run_tab(
                        old(self)@,
                        run_tab(launch.project, panes@, final(self)@.windows.last().name.unwrap()),
                    )
                    &&& final(self)@.windows.last().name matches Some(tab) && tab@ == tab_title(
                        launch.kind,
                        launch.name@,
                    )
                    &&& done.title@ == launch_title(
                        launch.kind,
                        launch.project_name@,
                        launch.name@,
                        crate::text::clipped(launch.goal@, MAX_GOAL_CHARS as nat),
                    )
                    &&& done.roles@ == role_records(done.run, done.run.roles@.len())
                    &&& done.run.wf()
                    &&& done.run == (ActiveRun {
                        kind: launch.kind,
                        state: EngineState {
                            phase: Phase::Idle,
                            token: 0,
                            cur: 0,
                            max_iterations: launch.limits.max_iterations,
                        },
                        template: match launch.kind {
                            OrchestrationKind::Workflow => Some(launch.name),
                            OrchestrationKind::Relay => None,
                        },
                        goal: done.run.goal,
                        roles: launch.roles,
                        role_providers: launch.role_providers,
                        role_panes: panes,
                        started: done.run.started,
                        task_id: launch.task_id,
                        checkpoints: done.run.checkpoints,
                        started_at_ms: launch.started_at_ms,
                        guard_limits: launch.limits,
                        elapsed_guard_triggered: false,
                        elapsed_deadline: crate::run_flow::rearmed(
                            done.run,
                            false,
                            now_ms,
                            clock_ms,
                        ),
                        stall_deadline: None,
                        idle_deadline: None,
                    })
                    &&& done.run.goal@ == crate::text::clipped(
                        launch.goal@,
                        MAX_GOAL_CHARS as nat,
                    )
                    &&& done.run.started@ == Seq::new(launch.roles@.len(), |i: int| false)
                    &&& done.run.checkpoints@.len() == 0
                },
            },
    {
        match check_role_panes(launch.kind, launch.roles.len(), panes.len()) {
            Ok(_) => {},
            Err(why) => {
                return Err(why);
            },
        }
        let tab = run_tab_name(launch.kind, launch.name.as_str());
        self.open_run_tab(launch.project, &panes, tab);
        assert(self@.windows == old(self)@.windows.push(run_tab(launch.project, panes@, tab))) by {
            lemma_shown_tab(old(self)@, run_tab(launch.project, panes@, tab));
        }
        let goal = clip(launch.goal.as_str(), MAX_GOAL_CHARS);
        let title = run_title(
            launch.kind,
            launch.project_name.as_str(),
            launch.name.as_str(),
            goal.as_str(),
        );
        let template = match launch.kind {
            OrchestrationKind::Workflow => Some(launch.name),
            OrchestrationKind::Relay => None,
        };
        let run = new_run(
            launch.kind,
            template,
            launch.goal.as_str(),
            launch.roles,
            launch.role_providers,
            panes,
            launch.task_id,
            launch.started_at_ms,
            launch.limits,
            now_ms,
            clock_ms,
        );
        let roles = list_roles(&run);
        Ok(Launched { run, title, roles })
    }
}

proof fn lemma_shown_tab(s: WorkspaceState, tab: Win)
    ensures
        with_run_tab(s, tab).windows == s.windows.push(tab),
{
}

} // verus!
