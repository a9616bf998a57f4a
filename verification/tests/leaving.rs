use uniterm_server::detection::{AgentPane, AgentStatus};
use uniterm_server::guardrail::GuardLimits;
use uniterm_server::hierarchy::Workspace;
use uniterm_server::import::{
    ImportError, ImportMode, ImportedProject, ImportedTab, ImportedWorkspace, StagedTab,
};
use uniterm_server::instruction::{InstructionAuthor, InstructionCommand};
use uniterm_server::checkpoint::LiveInvocation;
use uniterm_server::clients::PaneAttachRole;
use uniterm_server::metadata::MetadataStore;
use uniterm_server::observatory::DevServer;
use uniterm_server::orchestration::{
    ActiveRun, EngineState, OrchestrationKind, PendingDelivery, Phase, RoleProvider, RunRole,
};
use uniterm_server::pane_events::{
    AgentEvent, Checkpoint, DirectionFate, PtyBatch, PtyScreen, PtyTurn,
};
use uniterm_server::records::KnownPane;
use uniterm_server::scope::SidebarScope;
use uniterm_server::server::{Opening, Server};
use uniterm_server::session::Toast;
use uniterm_server::settings::{Config, NotificationDelivery};
use uniterm_server::sources::Sources;
use uniterm_server::types::{PaneId, ProjectId, Token};
use uniterm_server::waits::{
    service_pending_waits, ClientWait, PaneSeen, PendingControlWait, WaitAnswer, WaitReply,
};

fn limits() -> GuardLimits {
    GuardLimits {
        max_elapsed_seconds: 3_600,
        max_iterations: 8,
        max_active_runs: 4,
        max_role_panes: 8,
    }
}

fn server() -> Server {
    let config = Config {
        theme: "default".into(),
        status: true,
        status_top: false,
        sidebar: true,
        sidebar_width: 24,
        file_sidebar: true,
        file_sidebar_width: 32,
        notifications: NotificationDelivery::Uniterm,
        notify_completion: true,
        focus_follows_mouse: false,
        confirm_close: true,
        confirm_tab_close: true,
        scrollback_limit: 10_000,
        restore: true,
        guardrails: limits(),
        guardrail_allowed_projects: Vec::new(),
        editor: "vi".into(),
        editor_rules: String::new(),
    };
    let mut sources = Sources::new();
    sources.add_pane(PaneId(1));
    Server::open(
        Opening {
            name: "work".into(),
            hostname: "host".into(),
            program: "/bin/sh".into(),
            cols: 120,
            rows: 40,
            root: "/work/web".into(),
            folder: Some("web".into()),
            search_path: Vec::new(),
            seed: 9,
            config,
            instruction_chars: 1_000,
            instruction_capacity: 8,
            writes_enabled: true,
        },
        PaneId(1),
        sources,
    )
}

fn run_in(pane: u64) -> ActiveRun {
    ActiveRun {
        kind: OrchestrationKind::Workflow,
        state: EngineState {
            phase: Phase::Awaiting,
            token: 5,
            cur: 0,
            max_iterations: 8,
        },
        template: Some("solo".into()),
        goal: String::new(),
        roles: vec![RunRole {
            name: "builder".into(),
            verifier: false,
            expected_artifacts: Vec::new(),
        }],
        role_providers: vec![RoleProvider {
            id: "alpha".into(),
            command: "alpha".into(),
        }],
        role_panes: vec![PaneId(pane)],
        started: vec![true],
        task_id: pane,
        checkpoints: Vec::new(),
        started_at_ms: 0,
        guard_limits: limits(),
        elapsed_guard_triggered: false,
        elapsed_deadline: None,
        stall_deadline: None,
        idle_deadline: None,
    }
}

#[test]
fn nothing_is_left_of_a_closed_pane() {
    let mut s = server();
    let second = s.draw_pane_id();
    assert_eq!(second, PaneId(2));
    s.sources.add_pane(second);
    let project = s
        .session
        .workspace
        .add_project("two".into(), "/work/two".into(), second);
    s.project_notes
        .insert(project.0, "branch".into(), "main".into(), None);
    for pane in [1, 2] {
        s.runtime.runs.workflows.push(run_in(pane));
        s.runtime.runs.deliveries.push(PendingDelivery {
            kind: OrchestrationKind::Workflow,
            task_id: pane,
            token: 5,
            pane: PaneId(pane),
            bytes: Vec::new(),
            first_delivery: false,
            agent_id: "alpha".into(),
            attempts: 1,
            due: 0,
        });
        s.runtime.servers.list.push(DevServer {
            pane: PaneId(pane),
            port: 3000,
            detected: pane,
            label: "vite".into(),
            url: String::new(),
            stopping: false,
        });
        s.notifications.notify_agent_transition(
            PaneId(pane),
            AgentStatus::Working,
            AgentStatus::Question,
            true,
            NotificationDelivery::Uniterm,
            0,
        );
        s.pane_notes
            .insert(pane, "note".into(), "text".into(), None);
        s.instructions.instruction_command(
            InstructionCommand::Add {
                pane: PaneId(pane),
                author: InstructionAuthor::Human,
                text: "go on".into(),
            },
            &vec![LiveInvocation {
                pane: PaneId(pane),
                pid: Some(70),
            }],
            true,
            1,
        );
    }
    assert_eq!(s.instructions.items.len(), 2);
    s.toast = Some(Toast {
        pane: second,
        title: "t".into(),
        body: "b".into(),
        expires: 9,
    });
    s.session.clients.connect(Token(30));
    s.session
        .clients
        .attach_direct(Token(30), second, true, PaneAttachRole::Observer);

    let closing = s.close_pane(second, 1_000);
    assert!(!closing.done.stopped);
    assert_eq!(closing.done.removed_project, Some(project));
    assert!(closing.done.project_changed);
    assert_eq!(closing.tell, vec![Token(30)]);
    assert_eq!(closing.ended.workflows, vec![2]);
    assert_eq!(closing.instructions.len(), 1);
    assert!(closing.servers_changed);
    assert!(!closing.sync_files);
    assert_eq!(s.session.workspace.windows.len(), 1);
    assert_eq!(s.session.workspace.projects.len(), 1);
    assert_eq!(s.runtime.runs.workflows.len(), 1);
    assert_eq!(s.runtime.runs.deliveries.len(), 1);
    assert_eq!(s.runtime.servers.list.len(), 1);
    assert_eq!(s.notifications.pending.len(), 1);
    assert_eq!(s.instructions.items.len(), 1);
    assert!(s.toast.is_none());
    assert!(s.pane_notes.get(2, "note").is_none());
    assert!(s.pane_notes.get(1, "note").is_some());
    assert!(s.project_notes.get(project.0, "branch").is_none());
    assert_eq!(s.sources.panes.len(), 1);

    let last = s.close_pane(PaneId(1), 1_000);
    assert!(last.done.stopped);
    assert!(s.session.workspace.windows.is_empty());
}

#[test]
fn a_server_takes_up_its_remembered_scopes() {
    let mut s = server();
    s.restore_workspace_preferences(true, false);
    assert_eq!(s.agent_scope, SidebarScope::Workspace);
    assert_eq!(s.server_scope, SidebarScope::Project);
    assert_eq!(
        s.runtime.unrecorded_reason(),
        "Artifact ownership could not be recorded"
    );
    s.runtime.durability_error = Some("disk full".into());
    assert_eq!(s.runtime.unrecorded_reason(), "disk full");
}

#[test]
fn every_wait_is_answered_or_goes_on() {
    let output = |client: usize, pane: u64, needle: &str| ClientWait {
        client: Token(client),
        wait: PendingControlWait::for_output(PaneId(pane), needle, 1_000, 0),
    };
    let mut list = vec![
        output(20, 1, "ready"),
        output(21, 2, "never"),
        ClientWait {
            client: Token(22),
            wait: PendingControlWait::for_agent(PaneId(3), AgentStatus::Idle, 500, 0),
        },
        output(23, 4, "x"),
    ];
    let seen = |lives: bool, text: &str, status: Option<AgentStatus>| PaneSeen {
        lives,
        text: text.into(),
        status,
    };
    let replies = service_pending_waits(
        &mut list,
        vec![
            seen(true, "now ready!", None),
            seen(true, "not yet", None),
            seen(true, "", Some(AgentStatus::Working)),
            seen(false, "x", None),
        ],
        100,
    );
    assert_eq!(list.len(), 2);
    assert_eq!(list[0].client, Token(21));
    assert!(matches!(
        &replies[0],
        WaitReply::Output { client: Token(20), pane: PaneId(1), answer: WaitAnswer::Matched, text, truncated: false }
            if text == "now ready!"
    ));
    assert!(matches!(
        &replies[1],
        WaitReply::Output { client: Token(23), answer: WaitAnswer::Gone, text, .. } if text.is_empty()
    ));
    let replies = service_pending_waits(
        &mut list,
        vec![
            seen(true, "not yet", None),
            seen(true, "", Some(AgentStatus::Working)),
        ],
        500,
    );
    assert_eq!(list.len(), 1);
    assert!(matches!(
        &replies[0],
        WaitReply::Agent {
            client: Token(22),
            answer: WaitAnswer::TimedOut,
            status: Some(AgentStatus::Working),
            ..
        }
    ));
    let replies = service_pending_waits(&mut list, vec![seen(true, "", None)], 1_000);
    assert!(list.is_empty());
    assert_eq!(replies.len(), 1);
}

fn empty_pane() -> AgentPane {
    AgentPane {
        agent: None,
        foreground_pid: Some(70),
        candidate: None,
        last_detection: None,
        launch_args: None,
        last_evidence_hash: 0,
        last_dev_server_hash: 0,
    }
}

#[test]
fn the_reports_of_a_turn_are_applied_in_order() {
    let mut pane = empty_pane();
    let mut turn = PtyTurn {
        got_output: true,
        eof: false,
        budget_spent: false,
        cwd_changed: false,
        cooperative_ready: false,
        ended: false,
        agent_changed: false,
        process_changed: false,
        nested_changed: false,
        focused: true,
    };
    let event = |agent: Option<&str>, status: Option<AgentStatus>, ready: bool| AgentEvent {
        agent: agent.map(str::to_string),
        status,
        cooperative_ready: ready,
        session_id: None,
        resume_command: None,
    };
    let effects = pane.apply_agent_events(
        vec![
            event(Some("alpha"), Some(AgentStatus::Working), false),
            event(None, Some(AgentStatus::Idle), true),
        ],
        &mut turn,
        Some(70),
        1_000,
        2_000,
    );
    assert_eq!(effects.len(), 2);
    assert!(effects[0].bound && effects[0].changed);
    assert_eq!(
        effects[1].transition.map(|t| (t.previous, t.status)),
        Some((AgentStatus::Working, AgentStatus::Idle))
    );
    assert!(turn.cooperative_ready && turn.agent_changed && !turn.ended);
    assert_eq!(pane.current_status(), AgentStatus::Idle);
    let effects = pane.apply_agent_events(
        vec![event(None, Some(AgentStatus::Exited), false)],
        &mut turn,
        Some(70),
        1_000,
        2_000,
    );
    assert!(effects[0].unbound && turn.ended);
    assert!(pane.agent.is_none());
    assert!(pane.recovers_shell_screen(Some(71), true, true));
    assert!(!pane.recovers_shell_screen(Some(70), true, true));
    assert!(!pane.recovers_shell_screen(Some(71), false, true));
}

#[test]
fn a_turn_of_a_pane_is_read_and_planned() {
    let batch = |events: Vec<AgentEvent>, got_output: bool, foreground: i32| PtyBatch {
        got_output,
        eof: false,
        budget_spent: true,
        events,
        foreground: Some(foreground),
        reported: Some("file:///work/two".into()),
        shell_in_front: true,
        alt_screen: true,
        focused: true,
    };
    let screen = |tail: &str| PtyScreen {
        tail: tail.into(),
        title: "shell".into(),
        recent: tail.into(),
        nested_changed: true,
    };
    let mut pane = empty_pane();
    let mut cwd = Some("/work/one".to_string());
    let ready = AgentEvent {
        agent: Some("alpha".into()),
        status: None,
        cooperative_ready: true,
        session_id: None,
        resume_command: None,
    };
    let step = pane.on_pty(&mut cwd, batch(vec![ready], true, 71), 1_000, 2_000);
    assert_eq!(cwd.as_deref(), Some("/work/two"));
    assert!(step.recover && step.turn.cwd_changed && step.turn.cooperative_ready);
    let (news, plan) = pane.finish_pty(step.turn, Some(71), &screen("$ "));
    assert!(news.process_changed && news.evidence && news.dev_server);
    assert_eq!(plan.checkpoint, Checkpoint::Now);
    assert_eq!(plan.direction, DirectionFate::CancelOthers);
    assert!(plan.deliver_direction && plan.defer_read && plan.broadcast_nested);
    assert!(plan.repaint_chrome && !plan.close);

    let step = pane.on_pty(&mut cwd, batch(vec![], true, 71), 1_000, 2_000);
    assert!(!step.recover && !step.turn.cwd_changed);
    let (news, plan) = pane.finish_pty(step.turn, Some(71), &screen("$ "));
    assert!(!news.process_changed && !news.evidence && !news.dev_server);
    assert_eq!(plan.checkpoint, Checkpoint::Later);

    let mut quiet = batch(vec![], false, 72);
    quiet.reported = Some("file:///work/three".into());
    let step = pane.on_pty(&mut cwd, quiet, 1_000, 2_000);
    assert!(!step.recover);
    assert_eq!(cwd.as_deref(), Some("/work/two"));
    let (news, plan) = pane.finish_pty(step.turn, Some(72), &screen("changed"));
    assert!(!news.process_changed && !news.evidence);
    assert_eq!(plan.checkpoint, Checkpoint::Nothing);
    assert_eq!(pane.foreground_pid, Some(71));
}

#[test]
fn waiting_instructions_are_listed_with_their_place() {
    let mut s = server();
    s.instructions.instruction_command(
        InstructionCommand::Add {
            pane: PaneId(1),
            author: InstructionAuthor::Automation,
            text: "run the tests".into(),
        },
        &vec![LiveInvocation {
            pane: PaneId(1),
            pid: Some(70),
        }],
        true,
        4,
    );
    let known = vec![KnownPane {
        id: PaneId(1),
        state: empty_pane(),
    }];
    let list = s
        .session
        .workspace
        .instruction_snapshot(&s.instructions.items, &known);
    assert_eq!(list.len(), 1);
    assert_eq!(list[0].text, "run the tests");
    assert_eq!(list[0].project_name, "web");
    assert_eq!(list[0].tab, 1);
    assert_eq!(list[0].created_sequence, 4);
    assert!(list[0].agent.is_none());
}

fn imported(names: &[(&str, usize)]) -> ImportedWorkspace {
    ImportedWorkspace {
        projects: names
            .iter()
            .map(|(name, tabs)| ImportedProject {
                name: name.to_string(),
                root: format!("/work/{name}"),
                source_id: format!("id-{name}"),
                tabs: (0..*tabs)
                    .map(|i| ImportedTab {
                        name: Some(format!("{name}{i}")),
                    })
                    .collect(),
            })
            .collect(),
    }
}

fn fresh() -> Workspace {
    server().session.workspace
}

#[test]
fn a_fresh_workspace_takes_an_import_as_it_is() {
    let mut w = fresh();
    let mut notes = MetadataStore::new();
    let import = imported(&[("web", 2), ("api", 1)]);
    let slots = w
        .plan_import(&import, &vec![true, true], ImportMode::Fresh)
        .unwrap();
    assert_eq!(
        slots,
        vec![
            StagedTab { project: 0, tab: 1 },
            StagedTab { project: 1, tab: 0 }
        ]
    );
    let done = w
        .import_fresh_workspace(&mut notes, &import, &vec![PaneId(5), PaneId(6)])
        .unwrap();
    assert_eq!((done.projects, done.tabs, done.merged), (2, 3, 0));
    assert_eq!(w.windows.len(), 3);
    assert_eq!(w.windows[0].name, Some("web0".to_string()));
    assert_eq!(w.windows[1].active, PaneId(5));
    assert_eq!(w.windows[2].project, ProjectId(2));
    assert_eq!(w.projects[1].active_pane, Some(PaneId(6)));
    assert_eq!(w.active_window, 0);
    assert_eq!(
        notes.get(2, "desktop.source_id"),
        Some(&"id-api".to_string())
    );
    let again = w.plan_import(&import, &vec![true, true], ImportMode::Fresh);
    assert_eq!(again.unwrap_err(), ImportError::NotFresh);
    let elsewhere = fresh().plan_fresh_import(&imported(&[("other", 1)]));
    assert_eq!(elsewhere.unwrap_err(), ImportError::WrongRoot);
}

#[test]
fn a_merge_adds_only_what_is_missing() {
    let mut w = fresh();
    let mut notes = MetadataStore::new();
    let import = imported(&[("web", 3), ("api", 1)]);
    let slots = w
        .plan_import(&import, &vec![true, true], ImportMode::Merge)
        .unwrap();
    assert_eq!(slots.len(), 3);
    assert_eq!(slots[0], StagedTab { project: 0, tab: 1 });
    let done = w.merge_imported_workspace(
        &mut notes,
        &import,
        &vec![PaneId(5), PaneId(6), PaneId(7)],
    );
    assert_eq!((done.projects, done.tabs, done.merged), (1, 3, 1));
    assert_eq!(w.windows.len(), 4);
    assert_eq!(w.windows[0].name, None);
    assert_eq!(w.projects[0].name, "web");
    assert_eq!(w.projects[1].root, "/work/api");
    assert_eq!(w.next_project_id, 3);
    assert!(w.plan_merge(&import).is_empty());
}

#[test]
fn a_refused_import_says_why() {
    let import = imported(&[("web", 1), ("api", 0)]);
    let w = fresh();
    let said = |dirs: Vec<bool>| {
        w.plan_import(&import, &dirs, ImportMode::Merge)
            .unwrap_err()
            .text(&import)
    };
    assert_eq!(
        said(vec![true, true]),
        "Project 'api' has an invalid Tab count"
    );
    assert_eq!(
        said(vec![false, true]),
        "Project path is unavailable: /work/web"
    );
    assert_eq!(
        ImportError::NoProjects.text(&import),
        "the imported Workspace has no usable Projects"
    );
    assert_eq!(
        ImportError::TooManyProjects.text(&import),
        "the imported Workspace exceeds 256 Projects"
    );
    assert_eq!(
        ImportError::ProjectName.text(&import),
        "an imported Project has an invalid name"
    );
    assert_eq!(
        ImportError::TabName(0).text(&import),
        "Project 'web' has an invalid Tab name"
    );
    assert_eq!(
        ImportError::NotFresh.text(&import),
        "fresh import requires a newly-created Workspace"
    );
    assert_eq!(
        ImportError::WrongRoot.text(&import),
        "fresh Workspace was not started at the first Project path"
    );
}
