use uniterm_server::artifact::{
    apply_artifact_observation, ArtifactChange, ArtifactId, ArtifactObservation, ArtifactRecord,
    ArtifactStatus, ObservationQueue,
};
use uniterm_server::artifact_gate::OwningRun;
use uniterm_server::catalog::{
    merge_agents_snapshot, merge_catalog, CatalogEntry, ConnectorStatus, LiveCounts, ProviderState,
};
use uniterm_server::commands::FileTreeChange;
use uniterm_server::control::{
    capabilities, finish_request, refuse_request, ControlCommand, ControlError, ControlFacts,
    ControlReply, ControlRequest, OutsideResult,
};
use uniterm_server::detection::{
    DetectionAuthority, DetectionProvenance, DetectionSource, Verdict,
};
use uniterm_server::files::{
    enter_copy_mode, handle_copy_input, CopyAction, CopyStep, FileAction, FileCommand, FileSync,
    FileTree,
};
use uniterm_server::guardrail::GuardLimits;
use uniterm_server::menu::{
    handle_context_mouse, run_agent_context_action, run_file_context_action, AgentAction,
    AgentStep, AgentTarget, ContextAction, ContextTarget, FileStep, MenuMouse,
};
use uniterm_server::messages::{ClientMessage, Query};
use uniterm_server::mouse::{
    arm_selection, drag_selection, encode_mouse_report, finish_selection, on_wheel, FinishStep,
    MouseKind, MouseMode, MouseSel, PaneMouse, WheelStep,
};
use uniterm_server::orchestration::OrchestrationKind;
use uniterm_server::pointer::{pane_step, scroll_list, PaneStep};
use uniterm_server::records::{artifact_snapshot, run_snapshot, LedgerEntry, RunRecord, RunStatus};
use uniterm_server::replies::{AgentReply, ReplyFacts, ReplyStep};
use uniterm_server::run_recovery::GuardBounds;
use uniterm_server::scope::SidebarScope;
use uniterm_server::server::{
    recover_workspace, system_hostname, workspace_name, LoadOutcome, NameError, Opening,
    RepairOutcome, Server, Structure, WorkspaceRecovery,
};
use uniterm_server::session::{MsgFacts, MsgStep, TaskRoute};
use uniterm_server::settings::{
    Config, NotificationDelivery, SettingsOutcome, SettingsPatch,
};
use uniterm_server::sources::Sources;
use uniterm_server::types::{PaneId, ProjectId, Rect, Token};
use uniterm_server::viewport::{active_cursor_pos, RunningAgent};

fn config() -> Config {
    Config {
        theme: "default".into(),
        status: true,
        status_top: false,
        sidebar: true,
        sidebar_width: 24,
        file_sidebar: true,
        file_sidebar_width: 32,
        notifications: NotificationDelivery::Uniterm,
        notify_completion: true,
        focus_follows_mouse: false,
        confirm_close: true,
        confirm_tab_close: true,
        scrollback_limit: 10_000,
        restore: true,
        guardrails: GuardLimits {
            max_elapsed_seconds: 3_600,
            max_iterations: 8,
            max_active_runs: 4,
            max_role_panes: 8,
        },
        guardrail_allowed_projects: Vec::new(),
        editor: "vi".into(),
        editor_rules: String::new(),
    }
}

fn opening() -> Opening {
    Opening {
        name: "work".into(),
        hostname: "host".into(),
        program: "/bin/sh".into(),
        cols: 120,
        rows: 0,
        root: "/work/web".into(),
        folder: Some("web".into()),
        search_path: vec!["/usr/bin".into()],
        seed: 9,
        config: config(),
        instruction_chars: 1_000,
        instruction_capacity: 8,
        writes_enabled: true,
    }
}

fn server() -> Server {
    let mut sources = Sources::new();
    sources.add_pane(PaneId(1));
    Server::open(opening(), PaneId(1), sources)
}

fn facts() -> MsgFacts {
    MsgFacts {
        pane_exists: true,
        has_agent: false,
        copying: false,
        panes: 1,
        overview_cols: 1,
        permitted: true,
        worktree: false,
        now: 10_000,
        all_panes: vec![PaneId(1)],
        agent_panes: Vec::new(),
    }
}

#[test]
fn a_fresh_server_shows_one_pane_of_one_project() {
    let mut s = server();
    assert_eq!(s.name(), "work");
    assert_eq!(s.session.workspace.windows.len(), 1);
    assert_eq!(s.session.workspace.projects[0].name, "web");
    assert_eq!((s.session.clients.cols, s.session.clients.rows), (120, 1));
    assert_eq!(s.next_pane_id, 2);
    assert_eq!(s.draw_pane_id(), PaneId(2));
    assert_eq!(s.spawn_directory().as_deref(), Some("/work/web"));
    assert!(s.running);
    let mut unnamed = opening();
    unnamed.folder = Some(String::new());
    let other = Server::open(unnamed, PaneId(1), Sources::new());
    assert_eq!(other.session.workspace.projects[0].name, "Default");
}

#[test]
fn settings_change_what_is_shown() {
    let mut s = server();
    let narrow = Config {
        sidebar: false,
        file_sidebar: false,
        ..config()
    };
    assert_eq!(s.set_config(narrow), FileTreeChange::Stop);
    assert!(!s.session.view.sidebar);
    assert!(!s.session.file_manager_visible());
    assert!(!s.session.current_canvas().file_sidebar);
}

#[test]
fn a_workspace_is_renamed_only_to_a_free_valid_name() {
    let mut s = server();
    assert!(s.rename_session("work".into(), true, true).is_none());
    assert!(s.rename_session("x/y".into(), false, true).is_none());
    assert!(s.rename_session("play".into(), true, false).is_none());
    assert_eq!(s.name(), "work");
    let plan = s.rename_session("play".into(), true, true).unwrap();
    assert_eq!(plan.old, "work");
    assert_eq!(s.name(), "play");
}

#[test]
fn a_structure_is_written_once_and_never_after_a_stop() {
    let mut s = server();
    s.catalog.enabled = true;
    assert_eq!(s.persist(Some("a".into())), Some(Some("a".to_string())));
    assert_eq!(s.persist(Some("a".into())), Some(None));
    let end = s.shutdown(Some("b".into()));
    assert_eq!(end.line.as_deref(), Some("b"));
    assert!(!s.running);
    assert_eq!(s.persist(Some("c".into())), None);
}

#[test]
fn the_server_wakes_for_whatever_is_due_first() {
    let mut s = server();
    assert_eq!(s.next_detection_deadline(&vec![None], &vec![]), None);
    s.checkpoint.mark_snapshot_dirty(10_000);
    assert_eq!(
        s.next_detection_deadline(&vec![Some(15_000)], &vec![Some(11_000)]),
        Some(11_000)
    );
    assert_eq!(
        s.next_detection_deadline(&vec![], &vec![]),
        Some(12_000)
    );
}

#[test]
fn names_and_hosts_are_made_presentable() {
    assert_eq!(system_hostname(Some("box\x07")), "box");
    assert_eq!(system_hostname(Some("\x07")), "localhost");
    assert_eq!(system_hostname(None), "localhost");
    assert!(matches!(workspace_name(None, None), Err(NameError::NoStem)));
    let error = workspace_name(Some("a b".into()), Some("no spaces".into())).unwrap_err();
    assert_eq!(error.text(), "invalid Workspace name 'a b': no spaces");
    assert_eq!(workspace_name(Some("ok".into()), None).unwrap(), "ok");
}

#[test]
fn only_a_newer_record_keeps_a_workspace_from_starting() {
    assert_eq!(
        recover_workspace(
            RepairOutcome::FromFuture,
            true,
            LoadOutcome::Loaded { snapshot: true },
            true
        ),
        WorkspaceRecovery::Refuse
    );
    assert_eq!(
        recover_workspace(RepairOutcome::Whole, true, LoadOutcome::FromFuture, true),
        WorkspaceRecovery::Refuse
    );
    assert_eq!(
        recover_workspace(RepairOutcome::Damaged, true, LoadOutcome::Damaged, true),
        WorkspaceRecovery::Start {
            reopen: false,
            quarantine: true,
            projections: false,
            delete_snapshot: false,
            structure: Structure::Remembered
        }
    );
    assert_eq!(
        recover_workspace(
            RepairOutcome::Repaired,
            true,
            LoadOutcome::Loaded { snapshot: true },
            false
        ),
        WorkspaceRecovery::Start {
            reopen: true,
            quarantine: false,
            projections: true,
            delete_snapshot: false,
            structure: Structure::Snapshot { preferences: false }
        }
    );
    assert_eq!(
        recover_workspace(RepairOutcome::Whole, false, LoadOutcome::FromFuture, false),
        WorkspaceRecovery::Start {
            reopen: false,
            quarantine: false,
            projections: false,
            delete_snapshot: true,
            structure: Structure::Fresh
        }
    );
}

#[test]
fn messages_are_carried_out_or_left_to_the_host() {
    let mut s = server().session;
    s.clients.connect(Token(20));
    let step = s.handle_msg(
        Token(20),
        ClientMessage::Attach {
            cols: 100,
            rows: 30,
        },
        &facts(),
    );
    assert!(matches!(step, MsgStep::Sized { everything: true, .. }));
    assert_eq!((s.clients.cols, s.clients.rows), (100, 30));
    assert!(matches!(
        s.handle_msg(Token(20), ClientMessage::Input(b"ls".to_vec()), &facts()),
        MsgStep::SendInput { pane: PaneId(1), .. }
    ));
    assert!(matches!(
        s.handle_msg(Token(20), ClientMessage::Query(Query::Info), &facts()),
        MsgStep::Info {
            windows: 1,
            panes: 1
        }
    ));
    assert!(matches!(
        s.handle_msg(Token(20), ClientMessage::KillServer, &facts()),
        MsgStep::Stop
    ));
    assert!(matches!(
        s.handle_msg(Token(20), ClientMessage::Detach, &facts()),
        MsgStep::Detached
    ));
    assert!(matches!(
        s.handle_msg(
            Token(20),
            ClientMessage::NewTask {
                prompt: "go".into(),
                relay: false,
                agent: None,
                role_providers: vec!["x".into()],
                workflow: None,
                selector: None,
            },
            &facts()
        ),
        MsgStep::Launch {
            route: TaskRoute::Refused,
            ..
        }
    ));
    let environment = || ClientMessage::RemoteEnvironment {
        search_path: vec!["/opt/bin".into()],
    };
    s.handle_msg(Token(20), environment(), &facts());
    assert_eq!(s.search_path, vec!["/usr/bin"]);
    s.clients.connect(Token(21));
    s.handle_msg(Token(21), environment(), &facts());
    assert_eq!(s.search_path, vec!["/opt/bin", "/usr/bin"]);
    let toast = s.refused_launch("limit reached", 1_000);
    assert_eq!(toast.body, "limit reached");
    assert_eq!(toast.expires, 9_000);
}

fn control(command: ControlCommand) -> ControlRequest {
    ControlRequest {
        version: 1,
        workspace: "work".into(),
        command,
    }
}

fn control_facts() -> ControlFacts {
    ControlFacts {
        version: 1,
        sequence: 40,
        permitted: true,
        worktree: false,
        spawned: None,
        has_agent: false,
        all_panes: vec![PaneId(1)],
        agent_panes: Vec::new(),
    }
}

#[test]
fn a_refused_request_changes_nothing() {
    let refused = |r: &ControlRequest, f: &ControlFacts| refuse_request("work", r, f);
    let mut old = control(ControlCommand::Snapshot);
    old.version = 7;
    assert_eq!(
        refused(&old, &control_facts()),
        Some(ControlError::UnsupportedVersion)
    );
    let mut foreign = control(ControlCommand::Snapshot);
    foreign.workspace = "other".into();
    assert_eq!(
        refused(&foreign, &control_facts()),
        Some(ControlError::WorkspaceMismatch)
    );
    assert_eq!(
        refused(
            &control(ControlCommand::Subscribe { after_sequence: 41 }),
            &control_facts()
        ),
        Some(ControlError::InvalidCursor)
    );
    assert_eq!(
        refused(
            &control(ControlCommand::OrchestrationStart {
                kind: OrchestrationKind::Workflow,
                template: None
            }),
            &control_facts()
        ),
        Some(ControlError::TemplateMissing)
    );
    assert_eq!(
        refused(
            &control(ControlCommand::OrchestrationStart {
                kind: OrchestrationKind::Relay,
                template: Some("solo".into())
            }),
            &control_facts()
        ),
        Some(ControlError::TemplateUnexpected)
    );
    let unconfirmed = ControlFacts {
        permitted: false,
        ..control_facts()
    };
    assert_eq!(
        refused(
            &control(ControlCommand::ProjectRemove {
                project: ProjectId(1)
            }),
            &unconfirmed
        ),
        Some(ControlError::RemovalUnconfirmed)
    );
    let mut s = server();
    let out = s.session.workspace.on_control_request(
        "work",
        &control(ControlCommand::ProjectRemove {
            project: ProjectId(1),
        }),
        &unconfirmed,
        &s.runtime.runs,
    );
    assert!(matches!(
        out.reply,
        Some(ControlReply::Refused(ControlError::RemovalUnconfirmed))
    ));
    assert_eq!(s.session.workspace.projects.len(), 1);
    assert_eq!(ControlError::InvalidCursor.code(), "invalid_cursor");
    assert_eq!(
        ControlError::UnsupportedVersion.message(),
        "unsupported control API version"
    );
}

#[test]
fn control_requests_change_the_workspace() {
    let mut s = server();
    let out = s.session.workspace.on_control_request(
        "work",
        &control(ControlCommand::ProjectRename {
            project: ProjectId(1),
            name: "site".into(),
        }),
        &control_facts(),
        &s.runtime.runs,
    );
    assert!(matches!(
        out.reply,
        Some(ControlReply::Mutation {
            found: true,
            accepted: true,
            ..
        })
    ));
    assert_eq!(s.session.workspace.projects[0].name, "site");
    let spawned = ControlFacts {
        spawned: Some(PaneId(2)),
        ..control_facts()
    };
    s.session.workspace.on_control_request(
        "work",
        &control(ControlCommand::TabCreate {
            project: ProjectId(1),
        }),
        &spawned,
        &s.runtime.runs,
    );
    assert_eq!(s.session.workspace.windows.len(), 2);
    assert!(capabilities().len() > 10);
    let done = |id: Option<u64>, found: bool, accepted: bool| OutsideResult {
        id,
        found,
        accepted,
    };
    assert!(matches!(
        finish_request(
            &control(ControlCommand::AgentLaunch {
                agent: "codex".into()
            }),
            done(Some(3), true, false)
        ),
        Some(ControlReply::Mutation {
            id: Some(3),
            accepted: true,
            ..
        })
    ));
    assert!(matches!(
        finish_request(
            &control(ControlCommand::TaskRetitle {
                id: 4,
                title: "  ".into()
            }),
            done(None, true, true)
        ),
        Some(ControlReply::Mutation {
            id: Some(4),
            found: true,
            accepted: false,
            ..
        })
    ));
    assert_eq!(
        finish_request(&control(ControlCommand::Snapshot), done(None, true, true)),
        None
    );
}

fn no_patch() -> SettingsPatch {
    SettingsPatch {
        theme: None,
        status: None,
        status_top: None,
        sidebar: None,
        sidebar_width: None,
        file_sidebar: None,
        file_sidebar_width: None,
        notification_delivery: None,
        notify_completion: None,
        focus_follows_mouse: None,
        confirm_close: None,
        confirm_tab_close: None,
        scrollback_limit: None,
        restore: None,
        guardrail_max_active_runs: None,
        guardrail_max_role_panes: None,
        guardrail_max_iterations: None,
        guardrail_max_elapsed_minutes: None,
        guardrail_allowed_projects: None,
        editor: None,
        editor_rules: None,
    }
}

const BOUNDS: GuardBounds = GuardBounds {
    max_elapsed_seconds: 86_400,
    max_iterations: 100,
    max_active_runs: 64,
    max_role_panes: 64,
};

#[test]
fn settings_stay_within_their_bounds() {
    let mut c = config();
    let patch = SettingsPatch {
        sidebar_width: Some(200),
        file_sidebar_width: Some(1),
        scrollback_limit: Some(5),
        guardrail_max_iterations: Some(0),
        guardrail_max_elapsed_minutes: Some(2),
        ..no_patch()
    };
    assert!(matches!(
        c.apply_settings(patch, BOUNDS),
        SettingsOutcome::Applied(_)
    ));
    assert_eq!(c.sidebar_width, 40);
    assert_eq!(c.file_sidebar_width, 22);
    assert_eq!(c.scrollback_limit, 100);
    assert_eq!(c.guardrails.max_iterations, 1);
    assert_eq!(c.settings_snapshot().guardrail_max_elapsed_minutes, 2);
    let refused = SettingsPatch {
        theme: Some("dark".into()),
        guardrail_allowed_projects: Some(Err("bad list".into())),
        ..no_patch()
    };
    assert!(matches!(
        c.apply_settings(refused, BOUNDS),
        SettingsOutcome::Refused(why) if why == "bad list"
    ));
    assert_eq!(c.theme, "default");
    let editor = SettingsPatch {
        editor: Some("hx".into()),
        ..no_patch()
    };
    assert!(matches!(
        c.apply_settings(editor, BOUNDS),
        SettingsOutcome::ValidateEditor { editor, .. } if editor == "hx"
    ));
}

#[test]
fn the_file_tree_follows_the_active_project() {
    let mut tree = FileTree::new(ProjectId(1));
    let (sync, stop) = tree.sync_file_manager(Some((ProjectId(1), "/a".into())), false, true);
    assert!(matches!(
        sync,
        FileSync::Refresh {
            reset: true,
            focused: true
        }
    ));
    assert!(stop.is_none());
    let (sync, stop) = tree.sync_file_manager(Some((ProjectId(2), "/b".into())), true, false);
    assert!(matches!(
        sync,
        FileSync::Refresh {
            reset: true,
            focused: false
        }
    ));
    let (watch, git) = stop.unwrap();
    assert!(
        matches!(watch, FileCommand::Watch { project: ProjectId(1), directories, .. } if directories.is_empty())
    );
    assert!(matches!(
        git,
        FileCommand::WatchGit {
            project: ProjectId(1),
            tree: None
        }
    ));
    assert!(matches!(
        tree.sync_file_manager(None, false, false).0,
        FileSync::Nothing
    ));
    assert!(tree
        .request_file_listing(true, false, true, "/b".into())
        .is_none());
    assert!(tree
        .request_file_listing(true, true, true, "/b".into())
        .is_some());
    assert!(tree.sync_file_watches(false, true, Vec::new()).is_none());
    assert!(tree.sync_git_change_watch(true, true).is_some());
    let step = tree.handle_file_action(FileAction::Copy("/b/x".into()));
    assert_eq!(step.clipboard.as_deref(), Some("/b/x"));
    assert!(!tree.handle_file_action(FileAction::Idle).repaint);
    assert!(enter_copy_mode(true, true, false));
    assert!(!enter_copy_mode(true, true, true));
    assert!(matches!(
        handle_copy_input(false, CopyAction::Exit),
        CopyStep::NotCopying
    ));
    assert!(matches!(
        handle_copy_input(true, CopyAction::Copy("x".into())),
        CopyStep::Leave(Some(text)) if text == "x"
    ));
}

fn pane_mouse(mode: MouseMode) -> PaneMouse {
    PaneMouse {
        mode,
        sgr: true,
        alt_screen: false,
        app_cursor: false,
        scrollback: true,
        copying: false,
    }
}

#[test]
fn mouse_reports_follow_the_two_encodings() {
    assert_eq!(
        encode_mouse_report(true, 0, true, 5, 10),
        b"\x1b[<0;5;10M".to_vec()
    );
    assert_eq!(
        encode_mouse_report(true, 0, false, 5, 10),
        b"\x1b[<0;5;10m".to_vec()
    );
    assert_eq!(
        encode_mouse_report(false, 0, true, 5, 10),
        vec![0x1b, b'[', b'M', 32, 37, 42]
    );
    assert_eq!(
        encode_mouse_report(false, 0, false, 5, 300),
        vec![0x1b, b'[', b'M', 35, 37, 255]
    );
    let rect = Rect::new(10, 5, 20, 10);
    assert!(matches!(
        on_wheel(rect, pane_mouse(MouseMode::Off), 12, 6, true),
        WheelStep::OpenScrollback { lines: -3 }
    ));
    let frozen = PaneMouse {
        copying: true,
        ..pane_mouse(MouseMode::Any)
    };
    assert!(matches!(
        on_wheel(rect, frozen, 12, 6, true),
        WheelStep::ScrollFrozen {
            lines: -3,
            leave: false
        }
    ));
    assert!(matches!(
        on_wheel(rect, frozen, 12, 6, false),
        WheelStep::ScrollFrozen {
            lines: 3,
            leave: true
        }
    ));
    assert!(matches!(
        on_wheel(rect, pane_mouse(MouseMode::Any), 12, 6, true),
        WheelStep::Send(_)
    ));
}

#[test]
fn a_plain_click_is_not_a_selection() {
    let mut sel: Option<MouseSel> = None;
    arm_selection(
        &mut sel,
        Token(20),
        PaneId(1),
        Some(pane_mouse(MouseMode::Off)),
        3,
        4,
        false,
    );
    assert!(sel.is_some());
    assert!(!matches!(
        finish_selection(&mut sel, true, true),
        FinishStep::Yank(_)
    ));
    assert!(sel.is_none());
    arm_selection(
        &mut sel,
        Token(20),
        PaneId(1),
        Some(pane_mouse(MouseMode::Off)),
        3,
        4,
        false,
    );
    let drag = drag_selection(&mut sel, true, false).unwrap();
    assert_eq!(drag.pane, PaneId(1));
    assert_eq!(drag.anchor, Some((3, 4)));
    assert_eq!(
        finish_selection(&mut sel, true, true),
        FinishStep::Yank(PaneId(1))
    );
}

#[test]
fn menus_answer_the_mouse_and_run_actions() {
    assert_eq!(handle_context_mouse(MouseKind::WheelDown), MenuMouse::Type(b'j'));
    assert_eq!(handle_context_mouse(MouseKind::Click), MenuMouse::Choose);
    assert_eq!(handle_context_mouse(MouseKind::Drag), MenuMouse::Nothing);
    let target = ContextTarget::File {
        path: "/w/a.rs".into(),
        name: "a.rs".into(),
        is_dir: false,
    };
    assert!(matches!(
        run_file_context_action(target, ContextAction::CopyPath, "/w".into()),
        FileStep::Copy(path) if path == "/w/a.rs"
    ));
    let agent = |started_at: u64| AgentTarget {
        pane: PaneId(1),
        started_at,
        foreground_pid: Some(7),
    };
    assert!(matches!(
        run_agent_context_action(agent(5), AgentAction::Stop, Some((5, Some(7))), None),
        AgentStep::Stop(PaneId(1))
    ));
    assert!(matches!(
        run_agent_context_action(agent(5), AgentAction::Stop, Some((6, Some(7))), None),
        AgentStep::Nothing
    ));
    assert_eq!(scroll_list(0, true), 0);
    assert_eq!(scroll_list(4, true), 3);
    assert_eq!(scroll_list(4, false), 5);
    assert_eq!(
        pane_step(MouseKind::WheelUp, false),
        PaneStep::Wheel { up: true }
    );
}

#[test]
fn records_are_chosen_by_project_run_and_state() {
    let run = |id: u64, project: u64, status: RunStatus| RunRecord {
        id,
        project: ProjectId(project),
        status,
    };
    let runs = vec![
        run(1, 1, RunStatus::Done),
        run(2, 1, RunStatus::Active),
        run(3, 2, RunStatus::Active),
    ];
    let ids = |list: Vec<RunRecord>| list.iter().map(|r| r.id).collect::<Vec<u64>>();
    assert_eq!(ids(run_snapshot(&runs, None, false)), vec![1, 2, 3]);
    assert_eq!(
        ids(run_snapshot(&runs, Some(ProjectId(1)), true)),
        vec![2]
    );
    let entry = |id: u64, run: u64, status: ArtifactStatus| LedgerEntry {
        id: ArtifactId(id),
        project: ProjectId(1),
        run,
        path: format!("f{id}"),
        status,
    };
    let ledger = vec![
        entry(1, 5, ArtifactStatus::Superseded),
        entry(2, 5, ArtifactStatus::Available),
        entry(3, 6, ArtifactStatus::Missing),
    ];
    assert_eq!(
        artifact_snapshot(&ledger, None, None, false),
        vec![ArtifactId(2), ArtifactId(3)]
    );
    assert_eq!(
        artifact_snapshot(&ledger, None, Some(5), true),
        vec![ArtifactId(1), ArtifactId(2)]
    );
    let s = server();
    let watches = s.session.workspace.sync_artifact_watches(&ledger);
    assert_eq!(watches.len(), 1);
    assert_eq!(watches[0].artifacts.len(), 2);
    assert_eq!(watches[0].artifacts[0].path, "f2");
}

#[test]
fn files_belong_to_the_role_whose_turn_it_is() {
    let mut s = server();
    let owner = s
        .runtime
        .record_validated_artifacts(
            7,
            OwningRun::Known {
                id: 3,
                project: ProjectId(1),
                active_role: Some(2),
            },
        )
        .unwrap();
    assert_eq!((owner.run, owner.role), (3, 2));
    assert!(s.runtime.record_artifact_change(None));
    assert!(s
        .runtime
        .record_validated_artifacts(7, OwningRun::Unknown)
        .is_none());
    assert_eq!(
        s.runtime.durability_error.as_deref(),
        Some("artifact validation for Task 7 had no owning Run")
    );
    assert!(!s.runtime.record_artifact_change(None));
    let mut other = server();
    other.runtime.record_validated_artifacts(
        7,
        OwningRun::Known {
            id: 3,
            project: ProjectId(1),
            active_role: None,
        },
    );
    assert_eq!(
        other.runtime.durability_error.as_deref(),
        Some("artifact validation for Run 3 had no active Role")
    );
    let mut third = server();
    assert!(!third.runtime.record_artifact_change(Some("bad path")));
    assert_eq!(
        third.runtime.durability_error.as_deref(),
        Some("artifact projection rejected: bad path")
    );
}

#[test]
fn observations_are_coalesced_and_change_only_their_own_file() {
    let mut queue = ObservationQueue::new();
    assert!(queue.request(ArtifactId(1)));
    assert!(!queue.request(ArtifactId(1)));
    assert!(queue.finished(ArtifactId(1)));
    assert!(!queue.finished(ArtifactId(1)));
    let record = ArtifactRecord {
        kind: 1,
        path: "a".into(),
        digest: "d".into(),
        size: 3,
        status: ArtifactStatus::Available,
    };
    let seen = |path: &str, digest: &str| {
        Some(ArtifactObservation {
            kind: 1,
            path: path.into(),
            digest: digest.into(),
            size: 3,
        })
    };
    let change = |seen, missing| apply_artifact_observation(&record, true, &seen, missing);
    assert_eq!(change(seen("a", "d"), false), ArtifactChange::Nothing);
    assert_eq!(change(seen("a", "e"), false), ArtifactChange::Refreshed);
    assert_eq!(change(seen("b", "e"), false), ArtifactChange::Nothing);
    assert_eq!(change(None, true), ArtifactChange::Missing);
    assert_eq!(
        apply_artifact_observation(&record, false, &seen("a", "e"), false),
        ArtifactChange::Nothing
    );
}

#[test]
fn catalogs_show_the_live_counts_of_this_workspace() {
    let entry = |name: &str| CatalogEntry {
        name: name.into(),
        windows: 0,
        panes: 0,
        projects: 0,
        running: false,
    };
    let out = merge_catalog(
        vec![entry("other"), entry("work")],
        "work",
        LiveCounts {
            windows: 2,
            panes: 3,
            projects: 1,
        },
    );
    let own: Vec<&CatalogEntry> = out.iter().filter(|e| e.name == "work").collect();
    assert_eq!(own.len(), 1);
    assert!(own[0].running);
    assert_eq!((own[0].windows, own[0].panes, own[0].projects), (2, 3, 1));
    let twin = |panes: u32| CatalogEntry {
        panes,
        ..entry("twin")
    };
    let live = LiveCounts {
        windows: 2,
        panes: 3,
        projects: 1,
    };
    let sorted = merge_catalog(vec![twin(9), entry("work"), twin(4), entry("a")], "work", live);
    let shown: Vec<(&str, u32)> = sorted.iter().map(|e| (e.name.as_str(), e.panes)).collect();
    assert_eq!(shown, vec![("a", 0), ("twin", 9), ("twin", 4), ("work", 3)]);
    let providers = vec![ProviderState {
        id: "codex".into(),
        name: "Codex".into(),
        command: "codex".into(),
        installed: true,
        connector: ConnectorStatus::Installed,
    }];
    let agents = merge_agents_snapshot(providers, &vec!["codex".into(), "codex".into()]);
    assert_eq!(agents[0].running, 2);
}

#[test]
fn replies_of_the_runtime_are_sorted() {
    let mut s = server();
    let facts = ReplyFacts {
        pane_exists: false,
        files_visible: true,
        files_project: ProjectId(1),
        active_project: ProjectId(1),
        bound: Vec::new(),
        live: LiveCounts {
            windows: 1,
            panes: 1,
            projects: 1,
        },
        name: "work".into(),
        program: "/bin/sh".into(),
    };
    assert!(matches!(
        s.runtime.on_agent_reply(
            AgentReply::InjectText {
                pane: PaneId(9),
                text: "x".into()
            },
            &facts
        ),
        ReplyStep::Nothing
    ));
    assert!(matches!(
        s.runtime.on_agent_reply(
            AgentReply::ArtifactFilesChanged {
                artifacts: vec![ArtifactId(1), ArtifactId(1)]
            },
            &facts
        ),
        ReplyStep::Observe(list) if list == vec![ArtifactId(1)]
    ));
    assert!(matches!(
        s.runtime.on_agent_reply(
            AgentReply::ArtifactObserved {
                artifact: ArtifactId(1),
                failed: false
            },
            &facts
        ),
        ReplyStep::Observed {
            apply: true,
            again: true
        }
    ));
    assert!(matches!(
        s.runtime.on_agent_reply(
            AgentReply::DurabilityError {
                workspace: "work".into(),
                operation: "append".into(),
                reason: "disk full".into()
            },
            &facts
        ),
        ReplyStep::ShowDurabilityError
    ));
    assert!(s.runtime.durability_error.is_some());
    let detected = |agent: Option<&str>| AgentReply::Detected {
        pane: PaneId(9),
        found: Verdict {
            foreground_pid: Some(70),
            agent: agent.map(str::to_owned),
            status: None,
            authority: DetectionAuthority::Process,
            evidence: "rule".into(),
            provenance: DetectionProvenance::direct(DetectionSource::Launch, 1, Some(70)),
        },
    };
    assert!(matches!(
        s.runtime.on_agent_reply(detected(Some("codex")), &facts),
        ReplyStep::WatchProcess {
            pane: PaneId(9),
            pid: 70
        }
    ));
    assert!(matches!(
        s.runtime.on_agent_reply(detected(None), &facts),
        ReplyStep::Nothing
    ));
    let changed = |project: u64| AgentReply::FileChanged {
        project: ProjectId(project),
        directory: "src".into(),
    };
    assert!(matches!(
        s.runtime.on_agent_reply(changed(1), &facts),
        ReplyStep::ListFiles { directory, paint: false } if directory == "src"
    ));
    assert!(matches!(
        s.runtime.on_agent_reply(changed(2), &facts),
        ReplyStep::Nothing
    ));
    assert!(matches!(
        s.runtime
            .on_agent_reply(AgentReply::FilesListed { taken: true }, &facts),
        ReplyStep::WatchFiles
    ));
    assert!(matches!(
        s.runtime.on_agent_reply(
            AgentReply::FileMutated {
                directory: "src".into(),
                taken: false
            },
            &facts
        ),
        ReplyStep::Nothing
    ));
    let restored = |error: Option<&str>| AgentReply::CheckpointRestored {
        waiting: 4,
        task_id: 2,
        restored: "before".into(),
        error: error.map(str::to_string),
    };
    assert!(matches!(
        s.runtime.on_agent_reply(restored(Some("dirty tree")), &facts),
        ReplyStep::AskAgain { waiting: 4, question }
            if question == "checkpoint rollback failed: dirty tree"
    ));
    assert!(matches!(
        s.runtime.on_agent_reply(restored(None), &facts),
        ReplyStep::Resume { waiting: 4, task_id: 2, restored } if restored == "before"
    ));
    assert!(matches!(
        s.runtime
            .on_agent_reply(AgentReply::ManifestsReloaded, &facts),
        ReplyStep::RefreshEvidence
    ));
    let hidden = ReplyFacts {
        files_visible: false,
        ..facts
    };
    assert!(matches!(
        s.runtime.on_agent_reply(
            AgentReply::GitCounted {
                project: ProjectId(1)
            },
            &hidden
        ),
        ReplyStep::Nothing
    ));
}

#[test]
fn the_agents_in_view_stand_by_project_and_age() {
    let s = server();
    let agents = vec![
        RunningAgent {
            pane: PaneId(1),
            started_at: 50,
        },
        RunningAgent {
            pane: PaneId(8),
            started_at: 10,
        },
    ];
    let list = s
        .session
        .workspace
        .observatory_agent_entries(&agents, SidebarScope::Project);
    assert_eq!(list.len(), 1);
    assert_eq!(list[0].pane, PaneId(1));
    let facts = s
        .session
        .workspace
        .session_facts("host".into(), "work".into(), "vim".into(), None, None)
        .unwrap();
    assert_eq!(facts.project, "web");
    assert_eq!(facts.pane, 1);
    let cell = |col: u16, row: u16| uniterm_server::broadcast::Cell { col, row };
    assert_eq!(
        active_cursor_pos(Some(Rect::new(10, 5, 20, 10)), None, cell(2, 3)),
        Some(cell(12, 8))
    );
    assert_eq!(active_cursor_pos(None, None, cell(2, 3)), None);
}
