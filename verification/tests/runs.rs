use uniterm_server::agent_launch::{
    launch_args, launch_place, plan_new_task, typed_launch_line, LaunchTarget, ResolvedAgent,
};
use uniterm_server::guardrail::{
    launch_facts, unknown_project, GuardDecision, GuardLimits, LaunchFacts,
};
use uniterm_server::hierarchy::{Project, Win, Workspace};
use uniterm_server::layout::LayoutNode;
use uniterm_server::orchestration::{
    Action, ActiveRun, ArtifactClaim, EngineState, OrchestrationKind, Orchestrations,
    PendingSubmission, Phase, RoleProvider, RunRole, SubmissionStatus, IDLE_FALLBACK_MS,
    ORCHESTRATION_STALL_TIMEOUT_MS,
};
use uniterm_server::run_actions::{
    plan_action, plan_prompt, workflow_prompt, RunEnd, RunStep,
};
use uniterm_server::run_flow::RunTimer;
use uniterm_server::run_launch::{
    list_roles, plan_relay_turn, run_tab_name, Launch, RelayStart,
};
use uniterm_server::run_timers::{EngineEvent, TimerQuestion};
use uniterm_server::types::{PaneId, ProjectId};

fn limits() -> GuardLimits {
    GuardLimits {
        max_elapsed_seconds: 60,
        max_iterations: 8,
        max_active_runs: 4,
        max_role_panes: 8,
    }
}

fn role(name: &str) -> RunRole {
    RunRole {
        name: name.into(),
        verifier: false,
        expected_artifacts: Vec::new(),
    }
}

fn provider(id: &str) -> RoleProvider {
    RoleProvider {
        id: id.into(),
        command: format!("/bin/{id}"),
    }
}

fn run(kind: OrchestrationKind, task_id: u64, panes: [u64; 2]) -> ActiveRun {
    ActiveRun {
        kind,
        state: EngineState {
            phase: Phase::Awaiting,
            token: 100 + task_id,
            cur: 0,
            max_iterations: 8,
        },
        template: match kind {
            OrchestrationKind::Workflow => Some("pair".into()),
            OrchestrationKind::Relay => None,
        },
        goal: "tidy up".into(),
        roles: vec![role("builder"), role("checker")],
        role_providers: vec![provider("alpha"), provider("beta")],
        role_panes: vec![PaneId(panes[0]), PaneId(panes[1])],
        started: vec![false, true],
        task_id,
        checkpoints: Vec::new(),
        started_at_ms: 1_000_000,
        guard_limits: limits(),
        elapsed_guard_triggered: false,
        elapsed_deadline: Some(500),
        stall_deadline: Some(600),
        idle_deadline: Some(400),
    }
}

fn runs() -> Orchestrations {
    let mut all = Orchestrations::new(7);
    all.workflows.push(run(OrchestrationKind::Workflow, 1, [11, 12]));
    all.workflows.push(run(OrchestrationKind::Workflow, 2, [13, 14]));
    all.relays.push(run(OrchestrationKind::Relay, 3, [15, 16]));
    all
}

fn win(project: u64, pane: u64) -> Win {
    Win {
        project: ProjectId(project),
        layout: LayoutNode::Leaf(PaneId(pane)),
        active: PaneId(pane),
        zoomed: None,
        name: None,
    }
}

fn project(id: u64, name: &str) -> Project {
    Project {
        id: ProjectId(id),
        name: name.into(),
        root: format!("/work/{name}"),
        active_pane: None,
    }
}

fn workspace() -> Workspace {
    Workspace {
        windows: vec![win(1, 1), win(2, 2)],
        active_window: 0,
        last_active_pane: None,
        projects: vec![project(1, "one"), project(2, "two")],
        active_project: ProjectId(1),
        next_project_id: 3,
        project_scroll: 0,
        tab_scroll: 0,
        tab_scroll_follow_active: false,
        overview: None,
    }
}

fn check(task_id: u64, token: u64, pane: u64) -> PendingSubmission {
    PendingSubmission {
        kind: OrchestrationKind::Workflow,
        task_id,
        token,
        pane: PaneId(pane),
        status: SubmissionStatus::Done,
        verdict: None,
        summary: String::new(),
        due: 9_000,
    }
}

#[test]
fn a_stalled_run_is_taken_out_and_its_engine_is_told() {
    let mut all = runs();
    assert_eq!(
        all.due_tasks(OrchestrationKind::Workflow, RunTimer::Stall, 600),
        vec![1, 2]
    );
    assert!(all
        .due_tasks(OrchestrationKind::Workflow, RunTimer::Stall, 599)
        .is_empty());
    let due = all
        .begin_due(OrchestrationKind::Workflow, 1, RunTimer::Stall, 1_000_000)
        .unwrap();
    assert!(matches!(
        due.question,
        TimerQuestion::Engine(EngineEvent::Stall)
    ));
    assert_eq!(due.run.stall_deadline, None);
    assert_eq!(due.run.idle_deadline, Some(400));
    assert_eq!(all.workflows.len(), 1);
    assert!(all
        .begin_due(OrchestrationKind::Workflow, 1, RunTimer::Stall, 0)
        .is_none());
    let end = all.finish_due(due.run, RunTimer::Stall);
    assert!(end.kept && end.record);
    assert_eq!(all.workflows.len(), 2);
    assert_eq!(all.workflows[1].task_id, 1);
}

#[test]
fn a_run_that_ended_is_not_kept_and_an_idle_end_is_not_recorded_again() {
    let mut all = runs();
    for (timer, kept, record) in [
        (RunTimer::Stall, false, true),
        (RunTimer::Idle, false, false),
        (RunTimer::Elapsed, true, true),
    ] {
        let mut over = run(OrchestrationKind::Relay, 9, [21, 22]);
        over.state.phase = Phase::Aborted;
        let before = all.relays.len();
        let end = all.finish_due(over, timer);
        assert_eq!((end.kept, end.record), (kept, record));
        assert_eq!(all.relays.len(), before + usize::from(kept));
    }
}

#[test]
fn a_time_limit_counts_at_least_itself_and_may_be_extended() {
    let mut all = runs();
    let due = all
        .begin_due(OrchestrationKind::Relay, 3, RunTimer::Elapsed, 1_010_000)
        .unwrap();
    match due.question {
        TimerQuestion::Guard { elapsed, limit } => assert_eq!((elapsed, limit), (60, 60)),
        TimerQuestion::Engine(_) => panic!("the guard is asked first"),
    }
    assert!(due.run.elapsed_guard_triggered);
    assert!(all.relays.is_empty());
    assert!(all
        .settle_elapsed(due.run, GuardDecision::Allow, 1_010_000, 40_000)
        .is_none());
    assert!(!all.relays[0].elapsed_guard_triggered);
    assert_eq!(all.relays[0].elapsed_deadline, Some(90_000));

    let late = all
        .begin_due(OrchestrationKind::Relay, 3, RunTimer::Elapsed, 1_100_000)
        .unwrap();
    assert!(matches!(
        late.question,
        TimerQuestion::Guard { elapsed: 100, .. }
    ));
    let stopped = all
        .settle_elapsed(
            late.run,
            GuardDecision::Ask("too long".into()),
            1_100_000,
            40_000,
        )
        .unwrap();
    assert!(matches!(
        stopped.1,
        EngineEvent::Guardrail { reason } if reason == "too long"
    ));
    assert!(all.relays.is_empty());
}

#[test]
fn only_an_idle_turn_gets_a_new_token() {
    let mut all = runs();
    let mut stepped = run(OrchestrationKind::Workflow, 1, [11, 12]);
    let action = all.scope_due_action(
        &mut stepped,
        RunTimer::Stall,
        Action::Inject { role: 1, token: 5 },
    );
    assert!(matches!(
        action,
        Some(Action::Inject { role: 1, token: 5 })
    ));
    let action = all.scope_due_action(
        &mut stepped,
        RunTimer::Idle,
        Action::Inject { role: 1, token: 5 },
    );
    let Some(Action::Inject { role: 1, token }) = action else {
        panic!("the turn is opened");
    };
    assert_eq!(stepped.state.token, token);
    assert_eq!(all.token_state, token);
    assert!(token != 5);
    // One step of the generator from the seed.
    let a: u64 = 7 ^ (7 << 13);
    let b = a ^ (a >> 7);
    assert_eq!(token, b ^ (b << 17));
}

#[test]
fn a_fresh_token_is_never_one_in_use() {
    let mut all = runs();
    let mut state = EngineState {
        phase: Phase::Awaiting,
        token: 0,
        cur: 0,
        max_iterations: 1,
    };
    let first = match all.scope_activation_token(&mut state, Action::Inject { role: 0, token: 0 })
    {
        Some(Action::Inject { token, .. }) => token,
        _ => panic!("a token is free"),
    };
    let mut again = runs();
    again.workflows[0].state.token = first;
    let second = again.next_activation_token().unwrap();
    assert_ne!(first, second);
    assert!(matches!(
        all.scope_activation_token(&mut state, Action::Hold),
        Some(Action::Hold)
    ));
    assert_eq!(state.token, first);
}

#[test]
fn stepping_one_run_keeps_the_others() {
    let mut all = runs();
    let mut taken = all.take_run(OrchestrationKind::Workflow, 1).unwrap();
    assert!(all.take_run(OrchestrationKind::Relay, 1).is_none());
    taken.begin_timer(RunTimer::Idle);
    assert_eq!((taken.idle_deadline, taken.stall_deadline), (None, None));
    all.return_run(taken);
    let mut tasks: Vec<u64> = all.workflows.iter().map(|run| run.task_id).collect();
    tasks.sort();
    assert_eq!(tasks, vec![1, 2]);
}

#[test]
fn the_measure_of_a_run_is_its_limit_or_more() {
    let mut one = run(OrchestrationKind::Workflow, 1, [11, 12]);
    assert_eq!(one.elapsed_measure(0), 60);
    assert_eq!(one.elapsed_measure(1_061_000), 61);
    one.begin_timer(RunTimer::Elapsed);
    assert!(one.elapsed_guard_triggered);
    one.elapsed_allowed(1_030_000, 5_000);
    assert_eq!(one.elapsed_deadline, Some(35_000));
    assert!(!one.elapsed_guard_triggered);
}

#[test]
fn idle_fallbacks_wait_for_humans_and_checks() {
    let mut all = runs();
    all.submissions.push(check(2, 102, 13));
    all.block_idle_fallbacks(&vec![PaneId(15)]);
    assert_eq!(all.workflows[0].idle_deadline, Some(400));
    assert_eq!(all.workflows[1].idle_deadline, None);
    assert_eq!(all.relays[0].idle_deadline, None);
}

#[test]
fn an_idle_agent_arms_the_fallback_of_its_turn_alone() {
    let mut all = runs();
    all.workflows[0].idle_deadline = None;
    all.reconcile_orchestration_idle(PaneId(11), true, false, 1_000);
    assert_eq!(
        all.workflows[0].idle_deadline,
        Some(1_000 + IDLE_FALLBACK_MS)
    );
    assert_eq!(all.workflows[1].idle_deadline, Some(400));
    all.reconcile_orchestration_idle(PaneId(11), false, false, 2_000);
    assert_eq!(all.workflows[0].idle_deadline, None);
    all.workflows[1].roles[0].expected_artifacts = vec![ArtifactClaim {
        kind: 0,
        path: "out.txt".into(),
    }];
    all.reconcile_orchestration_idle(PaneId(13), true, false, 2_000);
    assert_eq!(all.workflows[1].idle_deadline, None);
    all.reconcile_orchestration_idle(PaneId(15), true, true, 2_000);
    assert_eq!(all.relays[0].idle_deadline, None);
}

#[test]
fn human_input_gives_a_turn_its_time_again() {
    let mut all = runs();
    all.arm_orchestration_deadline(PaneId(13), 1_000);
    assert_eq!(all.workflows[0].stall_deadline, Some(600));
    assert_eq!(
        all.workflows[1].stall_deadline,
        Some(1_000 + ORCHESTRATION_STALL_TIMEOUT_MS)
    );
}

#[test]
fn an_answered_run_goes_on_where_it_stood() {
    let mut all = runs();
    all.workflows[0].state.phase = Phase::Paused;
    let paused = all.take_resumable(PaneId(11), 1_030_000, 5_000).unwrap();
    assert!(paused.action.is_none());
    assert_eq!(paused.run.elapsed_deadline, Some(35_000));
    let open = all.take_resumable(PaneId(15), 1_030_000, 5_000).unwrap();
    assert!(matches!(
        open.action,
        Some(Action::Inject {
            role: 0,
            token: 103
        })
    ));
    assert_eq!(open.run.elapsed_deadline, Some(500));
    assert!(all.take_resumable(PaneId(99), 0, 0).is_none());
    all.workflows[0].state.phase = Phase::Done;
    assert!(all.take_resumable(PaneId(13), 0, 0).is_none());
}

#[test]
fn every_action_has_its_step() {
    let one = run(OrchestrationKind::Workflow, 1, [11, 12]);
    assert!(matches!(
        plan_action(&one, Action::Inject { role: 1, token: 9 }),
        RunStep::Prompt {
            role: 1,
            token: 9,
            pane: PaneId(12)
        }
    ));
    assert!(matches!(
        plan_action(&one, Action::Complete),
        RunStep::Finish { done: true, outcome } if outcome == "done"
    ));
    assert!(matches!(
        plan_action(&one, Action::Abort { reason: "no".into() }),
        RunStep::Finish { done: false, outcome } if outcome == "no"
    ));
    assert!(matches!(
        plan_action(&one, Action::Escalate { reason: "help".into() }),
        RunStep::Ask { pane: PaneId(11), reason } if reason == "help"
    ));
    assert!(matches!(
        plan_action(&one, Action::AwaitSubmit),
        RunStep::Nothing
    ));
    assert!(matches!(plan_action(&one, Action::Hold), RunStep::Nothing));
}

#[test]
fn a_refused_prompt_is_offered_again() {
    let mut all = Orchestrations::new(1);
    let mut one = run(OrchestrationKind::Workflow, 1, [11, 12]);
    let plan = plan_prompt(&one, 0, "do it", "alpha --go", false);
    assert_eq!(plan.bytes, b"alpha --go\n".to_vec());
    let bind = all.prompt_offered(&mut one, 0, 101, plan, true, 1_000);
    assert_eq!(bind, Some("alpha".to_string()));
    assert_eq!(one.started, vec![true, true]);
    assert_eq!(
        one.stall_deadline,
        Some(1_000 + ORCHESTRATION_STALL_TIMEOUT_MS)
    );
    let plan = plan_prompt(&one, 1, "check it", "beta --go", false);
    assert!(!plan.first);
    assert_eq!(all.prompt_offered(&mut one, 1, 101, plan, false, 1_000), None);
    assert_eq!(all.deliveries.len(), 1);
    assert_eq!(all.deliveries[0].attempts, 1);
    assert_eq!(all.deliveries[0].pane, PaneId(12));
    assert!(all.deliveries[0].due >= 3_000 && all.deliveries[0].due <= 3_400);
    all.drop_deliveries(PaneId(11));
    assert_eq!(all.deliveries.len(), 1);
    all.drop_deliveries(PaneId(12));
    assert!(all.deliveries.is_empty());
}

#[test]
fn a_run_ends_by_its_outcome() {
    let mut all = runs();
    all.submissions.push(check(1, 101, 11));
    all.submissions.push(check(2, 102, 13));
    let one = run(OrchestrationKind::Workflow, 1, [11, 12]);
    let ended = all.finish_run(&one, true, "done");
    assert_eq!(ended.end, RunEnd::Completed);
    assert_eq!(ended.title, "wf:pair: done");
    assert_eq!(all.submissions.len(), 1);
    let relay = run(OrchestrationKind::Relay, 3, [15, 16]);
    let ended = all.finish_run(&relay, false, "stopped by human");
    assert_eq!(ended.end, RunEnd::Canceled);
    assert_eq!(ended.title, "relay: stopped by human");
    let ended = all.finish_run(&relay, false, &"x".repeat(20_000));
    assert_eq!(ended.end, RunEnd::Failed);
    assert_eq!(ended.recorded.len(), 16_384);
    let mut w = workspace();
    w.name_tab_of(PaneId(2), ended.title.clone());
    assert_eq!(w.windows[1].name, Some(ended.title));
    w.name_tab_of(PaneId(99), "nothing".into());
    assert_eq!(w.windows[0].name, None);
}

#[test]
fn findings_come_before_a_workflow_prompt() {
    assert_eq!(workflow_prompt("build".into(), None), "build");
    assert_eq!(
        workflow_prompt("build".into(), Some("two tests fail")),
        "The verifier sent this back. Findings: two tests fail. build"
    );
}

fn launch(kind: OrchestrationKind, name: &str) -> Launch {
    Launch {
        kind,
        name: name.into(),
        goal: "  tidy up ".into(),
        project: ProjectId(2),
        project_name: "two".into(),
        roles: vec![role("builder"), role("checker")],
        role_providers: vec![provider("alpha"), provider("beta")],
        limits: limits(),
        started_at_ms: 1_000_000,
        task_id: 4,
    }
}

#[test]
fn a_launched_run_gets_its_tab_title_and_record() {
    let mut w = workspace();
    let done = w
        .set_up_run(
            launch(OrchestrationKind::Workflow, "pair"),
            vec![PaneId(5), PaneId(6)],
            1_010_000,
            2_000,
        )
        .unwrap();
    assert_eq!(done.title, "# project two: workflow pair: tidy up");
    assert_eq!(w.windows.len(), 3);
    assert_eq!(w.active_window, 2);
    assert_eq!(w.active_project, ProjectId(2));
    assert_eq!(w.windows[2].name, Some("wf:pair".to_string()));
    assert_eq!(w.windows[2].layout.pane_ids(), vec![PaneId(5), PaneId(6)]);
    assert_eq!(done.run.template, Some("pair".to_string()));
    assert_eq!(done.run.goal, "  tidy up ");
    assert_eq!(done.run.elapsed_deadline, Some(52_000));
    assert_eq!(done.run.started, vec![false, false]);
    assert_eq!(done.run.state.phase, Phase::Idle);
    assert_eq!(done.roles.len(), 2);
    assert_eq!(done.roles[1].name, "checker");
    assert_eq!(done.roles[1].provider, "beta");
    assert_eq!(done.roles[1].pane, PaneId(6));
    assert_eq!(list_roles(&done.run).len(), 2);
}

#[test]
fn a_run_without_all_its_panes_is_not_shown() {
    let mut w = workspace();
    let refused = w.set_up_run(
        launch(OrchestrationKind::Workflow, "pair"),
        vec![PaneId(5)],
        0,
        0,
    );
    assert_eq!(
        refused.unwrap_err(),
        "could not create every workflow role Pane"
    );
    let refused = w.set_up_run(launch(OrchestrationKind::Relay, ""), Vec::new(), 0, 0);
    assert_eq!(
        refused.unwrap_err(),
        "could not create both relay role Panes"
    );
    assert_eq!(w.windows.len(), 2);
    assert_eq!(w.active_window, 0);
    assert_eq!(run_tab_name(OrchestrationKind::Relay, "x"), "relay");
}

#[test]
fn a_builder_waits_for_its_checkpoint() {
    let mut w = workspace();
    let done = w
        .set_up_run(
            launch(OrchestrationKind::Relay, ""),
            vec![PaneId(5), PaneId(6)],
            0,
            0,
        )
        .unwrap();
    assert_eq!(done.title, "# project two: relay: tidy up");
    match plan_relay_turn(&done.run, Action::Inject { role: 0, token: 8 }, &w) {
        RelayStart::Checkpoint { role, token, root } => {
            assert_eq!((role, token), (0, 8));
            assert_eq!(root, "/work/two");
        }
        RelayStart::Act(_) => panic!("the builder waits"),
    }
    assert!(matches!(
        plan_relay_turn(&done.run, Action::Inject { role: 1, token: 8 }, &w),
        RelayStart::Act(Action::Inject { role: 1, token: 8 })
    ));
    let mut all = Orchestrations::new(1);
    all.await_checkpoint(4, 0, 8, Some("carry on".into()));
    assert_eq!(all.relay_activations[0].task_id, 4);
    assert_eq!(
        all.relay_activations[0].handoff,
        Some("carry on".to_string())
    );
    assert!(!all.keep_live(done.run));
    assert!(all.keep_live(run(OrchestrationKind::Relay, 3, [15, 16])));
    assert_eq!(all.relays.len(), 1);
}

#[test]
fn a_launch_is_measured_by_what_runs_already() {
    let w = workspace();
    let configured = vec!["two".to_string(), "/repos/shared".to_string()];
    let repositories = vec![Some("/repos/shared".to_string()), None];
    let request = w
        .prepare_orchestration_launch(
            Some("/work/two"),
            3,
            limits(),
            &configured,
            &repositories,
            &runs(),
        )
        .unwrap();
    assert_eq!(request.name, "two");
    assert_eq!(request.root, "/work/two");
    assert!(request.policy.projects_restricted);
    assert_eq!(
        request.policy.allowed_projects,
        vec![ProjectId(1), ProjectId(2)]
    );
    assert_eq!(
        request.facts,
        LaunchFacts {
            project: ProjectId(2),
            requested_roles: 3,
            active_runs: 3,
            reserved_role_panes: 6,
        }
    );
    let plain = w
        .prepare_orchestration_launch(
            None,
            100_000,
            limits(),
            &Vec::new(),
            &repositories,
            &Orchestrations::new(1),
        )
        .unwrap();
    assert_eq!(plain.facts.project, ProjectId(1));
    assert_eq!(plain.facts.requested_roles, u16::MAX);
    assert!(!plain.policy.projects_restricted);
    assert!(plain.policy.allowed_projects.is_empty());
    let unknown = w.prepare_orchestration_launch(
        Some("three"),
        1,
        limits(),
        &configured,
        &repositories,
        &runs(),
    );
    assert_eq!(
        unknown.unwrap_err(),
        "unknown Project 'three' in this Workspace"
    );
    assert_eq!(
        unknown_project(None),
        "the active Project is not owned by this Workspace"
    );
    assert_eq!(w.launch_target(Some("two")), Some(1));
    assert_eq!(w.launch_target(Some("nine")), None);
    assert_eq!(
        launch_facts(ProjectId(1), 2, &vec![usize::MAX, 9]).reserved_role_panes,
        u16::MAX
    );
    let policy = w.guard_policy(limits(), &vec!["/work/one".to_string()], &vec![None, None]);
    assert_eq!(policy.allowed_projects, vec![ProjectId(1)]);
}

#[test]
fn a_task_starts_its_agent_as_the_panes_own_command() {
    let agent = ResolvedAgent {
        id: "alpha".into(),
        line: "alpha 'fix it'".into(),
    };
    let plan = plan_new_task(
        "fix it ",
        false,
        Some("alpha"),
        Some("one"),
        Some(&agent),
        "/bin/sh",
    );
    assert_eq!(plan.args, vec!["-c", "alpha 'fix it'; exec /bin/sh"]);
    assert!(plan.typed.is_empty());
    assert_eq!(plan.title, Some("# project one: fix it".to_string()));

    let missing = plan_new_task("fix it", true, Some("alpha"), None, None, "/bin/sh");
    assert!(missing.args.is_empty());
    assert_eq!(missing.typed.len(), 2);
    assert_eq!(
        missing.typed[1],
        "echo 'uniterm: agent alpha not found on PATH'\n"
    );
    assert_eq!(missing.title, Some("fix it".to_string()));

    let typed = plan_new_task("ls", false, None, None, None, "/bin/sh");
    assert_eq!(typed.typed, vec!["ls\n"]);
    let empty = plan_new_task("", false, None, None, Some(&agent), "/bin/sh");
    assert!(empty.args.is_empty() && empty.typed.is_empty());
    assert_eq!(empty.title, None);
}

#[test]
fn an_agent_does_not_start_in_a_busy_pane() {
    assert_eq!(
        launch_place(LaunchTarget::CurrentPane, Some(true)),
        Some(LaunchTarget::NewPane)
    );
    assert_eq!(
        launch_place(LaunchTarget::CurrentPane, Some(false)),
        Some(LaunchTarget::CurrentPane)
    );
    assert_eq!(launch_place(LaunchTarget::CurrentPane, None), None);
    assert_eq!(
        launch_place(LaunchTarget::NewWindow, None),
        Some(LaunchTarget::NewWindow)
    );
    assert_eq!(
        typed_launch_line("/opt/my agent", "printf end"),
        "'/opt/my agent'; printf end\n"
    );
    assert_eq!(
        launch_args("printf start; alpha", "/bin/zsh"),
        vec!["-c", "printf start; alpha; exec /bin/zsh"]
    );
    let mut w = workspace();
    w.place_agent(PaneId(7), LaunchTarget::NewPane);
    assert_eq!(w.windows[0].layout.pane_ids(), vec![PaneId(1), PaneId(7)]);
    w.place_agent(PaneId(8), LaunchTarget::NewWindow);
    assert_eq!(w.windows.len(), 3);
    w.place_task(PaneId(9));
    assert_eq!(w.windows[2].layout.pane_ids(), vec![PaneId(8), PaneId(9)]);
    w.place_agent(PaneId(10), LaunchTarget::CurrentPane);
    assert_eq!(w.windows.len(), 3);
}
