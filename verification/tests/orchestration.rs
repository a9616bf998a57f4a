use uniterm_server::guardrail::{
    elapsed_deadline, elapsed_seconds, launch_permitted, GuardDecision, GuardLimits,
};
use uniterm_server::hierarchy::Workspace;
use uniterm_server::orchestration::{
    next_orchestration_deadline, orchestration_idle_allowed, ActiveRun, EngineState,
    OrchestrationKind, Orchestrations, PendingDelivery, PendingSubmission, Phase, RoleProvider,
    RunRole, SubmissionStatus, MAX_DELIVERY_ATTEMPTS,
};
use uniterm_server::run_actions::{
    paste_bytes, plan_prompt, record_activation, relay_prompt, ActivationRecord,
};
use uniterm_server::run_flow::DeliveryEffect;
use uniterm_server::run_launch::{
    check_role_panes, check_workflow, new_run, relay_roles, role_layout, run_title,
};
use uniterm_server::run_recovery::{
    recovered_role_providers, recovered_run_shape_error, restored_provider_conflicts, DurableRun,
    GuardBounds, LivePane, Recovery,
};
use uniterm_server::run_submit::SubmitStep;
use uniterm_server::types::{PaneId, ProjectId};

fn limits() -> GuardLimits {
    GuardLimits {
        max_elapsed_seconds: 3_600,
        max_iterations: 8,
        max_active_runs: 4,
        max_role_panes: 8,
    }
}

#[test]
fn elapsed_deadline_is_event_armed_and_triggered_state_is_a_no_op() {
    let limits = GuardLimits {
        max_elapsed_seconds: 10,
        ..limits()
    };
    let now: u64 = 1_700_000_000_000;
    let clock: u64 = 50_000;
    let due = elapsed_deadline(now.saturating_sub(9_000), limits, false, now, clock).unwrap();
    assert!(due > clock);
    assert_eq!(due, 51_000);
    assert!(elapsed_deadline(now, limits, true, now, clock).is_none());
}

#[test]
fn idle_fallback_never_bypasses_human_or_artifact_gates() {
    assert!(orchestration_idle_allowed(false, false, false, false));
    assert!(!orchestration_idle_allowed(true, false, false, false));
    assert!(!orchestration_idle_allowed(false, true, false, false));
    assert!(!orchestration_idle_allowed(false, false, true, false));
    assert!(!orchestration_idle_allowed(false, false, false, true));
}

#[test]
fn orchestration_deadlines_disarm_to_no_wakeup() {
    let due: u64 = 30_000;
    let mut workflows = vec![ActiveRun {
        kind: OrchestrationKind::Workflow,
        state: EngineState {
            phase: Phase::Awaiting,
            token: 1,
            cur: 0,
            max_iterations: 1,
        },
        template: Some("solo".into()),
        goal: "test deadlines".into(),
        roles: vec![RunRole {
            name: "builder".into(),
            verifier: false,
            expected_artifacts: Vec::new(),
        }],
        role_providers: vec![RoleProvider {
            id: "fake".into(),
            command: "fake".into(),
        }],
        role_panes: vec![PaneId(11)],
        started: vec![true],
        task_id: 7,
        checkpoints: Vec::new(),
        started_at_ms: 1_700_000_000_000,
        guard_limits: limits(),
        elapsed_guard_triggered: true,
        elapsed_deadline: None,
        stall_deadline: Some(due),
        idle_deadline: None,
    }];
    let mut submissions = vec![PendingSubmission {
        kind: OrchestrationKind::Workflow,
        task_id: 7,
        token: 1,
        pane: PaneId(11),
        status: SubmissionStatus::Done,
        verdict: None,
        summary: String::new(),
        due,
    }];
    assert_eq!(
        next_orchestration_deadline(&submissions, &[], &workflows, &[]),
        Some(due)
    );

    submissions.clear();
    workflows[0].stall_deadline = None;
    assert_eq!(
        next_orchestration_deadline(&submissions, &[], &workflows, &[]),
        None
    );

    workflows[0].elapsed_deadline = Some(due);
    assert_eq!(
        next_orchestration_deadline(&[], &[], &workflows, &[]),
        Some(due)
    );
    workflows[0].state.phase = Phase::Paused;
    assert_eq!(next_orchestration_deadline(&[], &[], &workflows, &[]), None);
}

const BOUNDS: GuardBounds = GuardBounds {
    max_elapsed_seconds: 86_400,
    max_iterations: 100,
    max_active_runs: 64,
    max_role_panes: 64,
};

fn role(name: &str, verifier: bool) -> RunRole {
    RunRole {
        name: name.into(),
        verifier,
        expected_artifacts: Vec::new(),
    }
}

fn durable_workflow(phase: Phase) -> DurableRun {
    DurableRun {
        kind: OrchestrationKind::Workflow,
        task_id: 7,
        template: Some("solo".into()),
        goal: "test recovery".into(),
        roles: vec![role("builder", false)],
        role_providers: Vec::new(),
        agent_id: "fake".into(),
        agent_cmd: "fake".into(),
        role_panes: vec![PaneId(11)],
        started: vec![true],
        state: EngineState {
            phase,
            token: 1,
            cur: 0,
            max_iterations: 1,
        },
        checkpoints: Vec::new(),
        started_at_ms: 0,
        limits: limits(),
        elapsed_triggered: false,
    }
}

fn live(panes: &[u64]) -> Vec<LivePane> {
    panes
        .iter()
        .map(|pane| LivePane {
            id: PaneId(*pane),
            agent: None,
        })
        .collect()
}

fn shape(run: &DurableRun, panes: &[u64]) -> Option<&'static str> {
    let roles = match run.template.as_deref() {
        Some("solo") => Some(1),
        _ => None,
    };
    recovered_run_shape_error(run, BOUNDS, roles, &live(panes))
}

#[test]
fn recovered_runs_accept_only_restartable_phases_and_valid_shapes() {
    for phase in [Phase::Awaiting, Phase::Paused] {
        let workflow = durable_workflow(phase);
        assert_eq!(shape(&workflow, &[11]), None);

        let mut relay = durable_workflow(phase);
        relay.kind = OrchestrationKind::Relay;
        relay.template = None;
        relay.roles.push(role("second", true));
        relay.role_panes.push(PaneId(12));
        relay.started.push(false);
        assert_eq!(shape(&relay, &[11, 12]), None);
    }

    for phase in [Phase::Idle, Phase::Done, Phase::Aborted] {
        assert!(shape(&durable_workflow(phase), &[11]).is_some());
    }

    let mut invalid = durable_workflow(Phase::Awaiting);
    invalid.template = Some("missing".into());
    assert!(shape(&invalid, &[11]).is_some());
    invalid = durable_workflow(Phase::Awaiting);
    invalid.state.token = 0;
    assert!(shape(&invalid, &[11]).is_some());
    invalid = durable_workflow(Phase::Awaiting);
    invalid.started.clear();
    assert!(shape(&invalid, &[11]).is_some());
    invalid = durable_workflow(Phase::Awaiting);
    invalid.limits.max_active_runs = 0;
    assert_eq!(
        shape(&invalid, &[11]),
        Some("run contained invalid guardrail limits")
    );
    invalid = durable_workflow(Phase::Awaiting);
    invalid.started_at_ms = 1;
    assert_eq!(
        shape(&invalid, &[11]),
        Some("run guardrail and state-machine iteration limits disagreed")
    );
    invalid = durable_workflow(Phase::Awaiting);
    assert!(shape(&invalid, &[]).is_some());
}

#[test]
fn recovery_preserves_mixed_providers_and_migrates_legacy_scalar_ownership() {
    let mut run = durable_workflow(Phase::Awaiting);
    run.roles.push(role("verifier", true));
    run.role_panes.push(PaneId(12));
    run.started.push(false);
    run.kind = OrchestrationKind::Relay;
    run.template = None;
    let legacy = recovered_role_providers(&run);
    assert_eq!(legacy.len(), 2);
    assert!(legacy.iter().all(|provider| provider.id == "fake"));

    run.role_providers = vec![
        RoleProvider {
            id: "provider-a".into(),
            command: "agent-a".into(),
        },
        RoleProvider {
            id: "provider-b".into(),
            command: "agent-b".into(),
        },
    ];
    let recovered = recovered_role_providers(&run);
    assert_eq!(recovered[0].id, "provider-a");
    assert_eq!(recovered[0].command, "agent-a");
    assert_eq!(recovered[1].id, "provider-b");
    assert_eq!(recovered[1].command, "agent-b");
    assert_eq!(shape(&run, &[11, 12]), None);
    assert!(!restored_provider_conflicts("provider-a", None));
    assert!(!restored_provider_conflicts(
        "provider-a",
        Some("provider-a")
    ));
    assert!(restored_provider_conflicts(
        "provider-a",
        Some("provider-b")
    ));
}

fn run(kind: OrchestrationKind, task_id: u64, token: u64, panes: &[u64]) -> ActiveRun {
    let roles: Vec<RunRole> = panes.iter().map(|_| role("builder", false)).collect();
    let providers: Vec<RoleProvider> = panes
        .iter()
        .map(|_| RoleProvider {
            id: "fake".into(),
            command: "fake".into(),
        })
        .collect();
    let mut run = new_run(
        kind,
        None,
        "goal",
        roles,
        providers,
        panes.iter().map(|pane| PaneId(*pane)).collect(),
        task_id,
        1_000,
        limits(),
        1_000,
        50_000,
    );
    run.state.phase = Phase::Awaiting;
    run.state.token = token;
    run
}

fn runs() -> Orchestrations {
    let mut all = Orchestrations::new(9);
    assert!(all.keep_live(run(OrchestrationKind::Workflow, 1, 100, &[11])));
    assert!(all.keep_live(run(OrchestrationKind::Relay, 2, 200, &[21, 22])));
    all
}

#[test]
fn a_recorded_run_can_be_brought_back() {
    let mut original = run(OrchestrationKind::Relay, 2, 200, &[21, 22]);
    original.roles[1].name = "second".into();
    let record = original.durable();
    let mut all = Orchestrations::new(9);
    let mut waiting = Vec::new();
    let recoveries = all.restore_orchestrations(
        vec![record],
        BOUNDS,
        &vec![None],
        &live(&[21, 22]),
        &mut waiting,
        2_000,
        60_000,
    );
    assert!(matches!(
        recoveries[0],
        Recovery::Recovered {
            kind: OrchestrationKind::Relay,
            task_id: 2,
            ..
        }
    ));
    assert_eq!(all.relays.len(), 1);
    assert_eq!(all.relays[0].state.token, 200);
    assert_eq!(all.relays[0].role_panes, vec![PaneId(21), PaneId(22)]);
}

#[test]
fn a_closed_pane_cancels_exactly_the_runs_that_use_it() {
    let mut all = runs();
    let ended = all.cancel_orchestrations_for_pane(PaneId(22));
    assert_eq!(ended.relays, vec![2]);
    assert!(ended.workflows.is_empty());
    assert_eq!(all.workflows.len(), 1);
    assert!(all.relays.is_empty());
}

#[test]
fn tokens_are_never_zero_and_never_in_use() {
    let mut all = runs();
    let mut seen = vec![0, 100, 200];
    for _ in 0..20 {
        let token = all.next_activation_token().unwrap();
        assert!(!seen.contains(&token));
        seen.push(token);
    }
}

fn empty_workspace() -> Workspace {
    Workspace {
        windows: Vec::new(),
        active_window: 0,
        last_active_pane: None,
        projects: Vec::new(),
        active_project: ProjectId(1),
        next_project_id: 2,
        project_scroll: 0,
        tab_scroll: 0,
        tab_scroll_follow_active: false,
        overview: None,
    }
}

#[test]
fn a_stale_submission_changes_nothing() {
    let mut all = runs();
    let workspace = empty_workspace();
    let out = all.submit(
        &workspace,
        OrchestrationKind::Workflow,
        999,
        SubmissionStatus::Done,
        None,
        "done",
        &Vec::new(),
        false,
        60_000,
    );
    assert!(matches!(out.step, SubmitStep::Ignored));
    assert_eq!(all.workflows.len(), 1);
    let out = all.submit(
        &workspace,
        OrchestrationKind::Workflow,
        100,
        SubmissionStatus::NeedsInput,
        None,
        "which one?",
        &Vec::new(),
        false,
        60_000,
    );
    assert!(matches!(
        out.step,
        SubmitStep::Ask {
            pane: PaneId(11),
            ..
        }
    ));
}

#[test]
fn a_submission_ends_one_turn_and_keeps_the_run_while_it_can_go_on() {
    let mut all = runs();
    let workspace = empty_workspace();
    let mut submit = |token: u64, summary: &str| {
        all.submit(
            &workspace,
            OrchestrationKind::Relay,
            token,
            SubmissionStatus::Done,
            None,
            summary,
            &Vec::new(),
            false,
            60_000,
        )
    };
    let SubmitStep::Decide {
        mut run,
        event,
        pane,
        findings,
    } = submit(200, "looks fine").step
    else {
        unreachable!()
    };
    assert_eq!((event.token, pane), (200, PaneId(21)));
    assert_eq!(findings.as_deref(), Some("looks fine"));
    assert!(matches!(submit(200, "again").step, SubmitStep::Ignored));
    assert!(all.relays.is_empty());
    run.state.token = 201;
    let record = all.finish_submission(run).unwrap();
    assert_eq!(record.task_id, 2);
    assert_eq!(all.relays.len(), 1);
    assert_eq!(all.relays[0].state.token, 201);

    let out = all.submit(
        &workspace,
        OrchestrationKind::Relay,
        201,
        SubmissionStatus::Done,
        None,
        "",
        &Vec::new(),
        false,
        60_000,
    );
    let SubmitStep::Decide {
        mut run, findings, ..
    } = out.step
    else {
        unreachable!()
    };
    assert!(findings.is_none());
    run.state.phase = Phase::Done;
    assert!(all.finish_submission(run).is_none());
    assert!(all.relays.is_empty());
    assert_eq!(all.workflows.len(), 1);
}

#[test]
fn a_refused_prompt_is_offered_again_and_then_given_up() {
    let mut all = runs();
    let delivery = |attempts: u8, due: u64| PendingDelivery {
        kind: OrchestrationKind::Workflow,
        task_id: 1,
        token: 100,
        pane: PaneId(11),
        bytes: b"prompt".to_vec(),
        first_delivery: true,
        agent_id: "fake".into(),
        attempts,
        due,
    };
    all.schedule_prompt_retry(delivery(0, 0), 60_000);
    assert_eq!(all.deliveries.len(), 1);
    let due = all.deliveries[0].due;
    assert!(due > 60_000);
    assert!(all.take_due_deliveries(due - 1).is_empty());
    let mut taken = all.take_due_deliveries(due);
    assert_eq!(taken.len(), 1);
    let offered = taken.remove(0);
    assert!(matches!(
        all.settle_delivery(offered, false, due),
        DeliveryEffect::Retrying
    ));
    assert!(matches!(
        all.settle_delivery(delivery(MAX_DELIVERY_ATTEMPTS, due), false, due),
        DeliveryEffect::Failed {
            pane: PaneId(11),
            ..
        }
    ));
    assert!(matches!(
        all.settle_delivery(delivery(1, due), true, due),
        DeliveryEffect::Delivered {
            pane: PaneId(11),
            bind: Some(_),
            ..
        }
    ));
}

#[test]
fn prompts_are_typed_first_and_pasted_later() {
    let mut one = run(OrchestrationKind::Relay, 2, 200, &[21, 22]);
    let first = plan_prompt(&one, 0, "work", "agent 'work'", true);
    assert!(first.first);
    assert_eq!(first.pane, PaneId(21));
    one.started[0] = true;
    let later = plan_prompt(&one, 0, "work", "agent 'work'", true);
    assert!(!later.first);
    assert_eq!(later.bytes, paste_bytes("work", true));
    assert_eq!(paste_bytes("a", true), b"\x1b[200~a\x1b[201~\r".to_vec());
    assert!(relay_prompt("builder", "ship it", 200, Some("notes")).contains("ship it"));
}

#[test]
fn launches_are_checked_before_panes_are_made() {
    assert!(check_workflow("solo", Some(1), 1).is_ok());
    assert!(check_workflow("solo", None, 1).is_err());
    assert!(check_workflow("solo", Some(2), 1).is_err());
    assert!(check_role_panes(OrchestrationKind::Relay, 2, 2).is_ok());
    assert_eq!(
        check_role_panes(OrchestrationKind::Relay, 2, 1),
        Err("could not create both relay role Panes".to_string())
    );
    assert_eq!(
        check_role_panes(OrchestrationKind::Workflow, 2, 1),
        Err("could not create every workflow role Pane".to_string())
    );
    assert_eq!(
        run_title(OrchestrationKind::Relay, "web", "", " ship it "),
        "# project web: relay: ship it"
    );
    let layout = role_layout(&vec![PaneId(1), PaneId(2), PaneId(3)]);
    assert_eq!(layout.pane_ids(), vec![PaneId(1), PaneId(2), PaneId(3)]);
    let roles = relay_roles("second".into());
    assert_eq!(roles[0].name, "builder");
    assert_eq!(roles[1].name, "second");
    assert!(matches!(
        record_activation(Some(1), 2),
        ActivationRecord::Handoff { from: 1, to: 2 }
    ));
    assert!(matches!(
        record_activation(None, 2),
        ActivationRecord::Activated { role: 2 }
    ));
    assert_eq!(elapsed_seconds(1_000, 3_999), 2);
    assert!(launch_permitted(GuardDecision::Allow).is_ok());
    assert!(launch_permitted(GuardDecision::Ask("why".into())).is_err());
    assert!(launch_permitted(GuardDecision::Deny("no".into())).is_err());
}

#[test]
fn a_failed_check_asks_in_the_pane_whose_turn_it_is() {
    let all = runs();
    let request = all
        .report_artifact_gate_failure(OrchestrationKind::Relay, 200, "missing file")
        .unwrap();
    assert_eq!(request.pane, PaneId(21));
    assert_eq!(request.text, "artifact gate failed: missing file");
    assert!(all
        .report_artifact_gate_failure(OrchestrationKind::Workflow, 200, "x")
        .is_none());
}
