use uniterm_server::canvas::file_sidebar_rows_for;
use uniterm_server::cards::{AgentFacts, ProjectWorktree, RunRole};
use uniterm_server::checkpoint::{arm_dirty_snapshot, LiveInvocation};
use uniterm_server::commands::{Command, CommandInputs, FileTreeChange, ObservatoryTab, SplitAxis};
use uniterm_server::control::{
    ControlCommand, ControlError, ControlFacts, ControlReply, ControlRequest,
};
use uniterm_server::detection::{AgentPane, AgentStatus};
use uniterm_server::files::{FileAction, FileCommand};
use uniterm_server::guardrail::GuardLimits;
use uniterm_server::import::{ImportMode, ImportedProject, ImportedTab, ImportedWorkspace};
use uniterm_server::instruction::{InstructionAuthor, InstructionCommand};
use uniterm_server::launch::{AgentLaunchSnap, ProviderRules};
use uniterm_server::layout::LayoutNode;
use uniterm_server::messages::ClientMessage;
use uniterm_server::metadata::MetadataStore;
use uniterm_server::menu::{
    ContextAction, ContextTarget, MenuMouse, MenuSpot, MenuStep, TabSwitch,
};
use uniterm_server::mouse::{
    encode_mouse_report, DragStep, FinishStep, MouseKind, MouseMode, PaneMouse,
};
use uniterm_server::pane_io::PaneInput;
use uniterm_server::pointer::{MouseStep, PaneStep, PointerView};
use uniterm_server::pointing::{
    yanked, FileClick, PaneAct, PaneFacts, PointInputs, PointerState,
};
use uniterm_server::queue::{ClientQueue, MAX_PENDING_INPUT};
use uniterm_server::rail::CardSlot;
use uniterm_server::recovery::{restored_launch, SavedNote};
use uniterm_server::restore::RestoredTab;
use uniterm_server::retiring::RetiringEvent;
use uniterm_server::scope::SidebarScope;
use uniterm_server::server::{Opening, Server};
use uniterm_server::session::{MsgFacts, MsgStep, Toast};
use uniterm_server::run_recovery::GuardBounds;
use uniterm_server::settings::{Config, NotificationDelivery, SettingsOutcome, SettingsPatch};
use uniterm_server::sources::Sources;
use uniterm_server::status::TabBarLayout;
use uniterm_server::text::trim;
use uniterm_server::types::{PaneId, ProjectId, Rect, Token};
use uniterm_server::viewport::DrawnLists;

fn server() -> Server {
    let config = Config {
        theme: "default".into(),
        status: true,
        status_top: false,
        sidebar: true,
        sidebar_width: 24,
        file_sidebar: true,
        file_sidebar_width: 32,
        notifications: NotificationDelivery::Uniterm,
        notify_completion: true,
        focus_follows_mouse: false,
        confirm_close: true,
        confirm_tab_close: true,
        scrollback_limit: 10_000,
        restore: true,
        guardrails: GuardLimits {
            max_elapsed_seconds: 3_600,
            max_iterations: 8,
            max_active_runs: 4,
            max_role_panes: 8,
        },
        guardrail_allowed_projects: Vec::new(),
        editor: "vi".into(),
        editor_rules: String::new(),
    };
    let mut sources = Sources::new();
    sources.add_pane(PaneId(1));
    Server::open(
        Opening {
            name: "work".into(),
            hostname: "host".into(),
            program: "/bin/sh".into(),
            cols: 160,
            rows: 40,
            root: "/work/web".into(),
            folder: Some("web".into()),
            search_path: Vec::new(),
            seed: 9,
            config,
            instruction_chars: 1_000,
            instruction_capacity: 8,
            writes_enabled: true,
        },
        PaneId(1),
        sources,
    )
}

fn no_inputs() -> CommandInputs {
    CommandInputs {
        spawned: None,
        neighbor: None,
        resized: None,
    }
}

fn spawn(s: &mut Server) -> PaneId {
    let pane = s.draw_pane_id();
    s.sources.add_pane(pane);
    pane
}

fn split(s: &mut Server) -> PaneId {
    let pane = spawn(s);
    let inputs = CommandInputs {
        spawned: Some(pane),
        ..no_inputs()
    };
    let out = s.handle_command(Command::Split(SplitAxis::LeftRight), inputs, 1_000);
    assert!(out.closings.is_empty());
    pane
}

fn note(s: &mut Server, pane: PaneId) {
    s.pane_notes
        .insert(pane.0, "task".into(), "build".into(), None);
    let live = vec![LiveInvocation {
        pane,
        pid: Some(70),
    }];
    let add = InstructionCommand::Add {
        pane,
        author: InstructionAuthor::Human,
        text: "go on".into(),
    };
    assert!(s.instructions.instruction_command(add, &live, true, 1).accepted);
}

#[test]
fn a_fresh_server_knows_its_limits_and_nothing_else() {
    let s = server();
    assert_eq!(s.instructions.max_chars, 1_000);
    assert_eq!(s.instructions.capacity, 8);
    assert!(s.instructions.items.is_empty());
    assert!(s.pane_notes.get(1, "task").is_none());
    assert_eq!(s.next_pane_id, 2);
}

#[test]
fn a_killed_pane_is_forgotten_everywhere() {
    let mut s = server();
    let second = split(&mut s);
    note(&mut s, PaneId(1));
    note(&mut s, second);
    let out = s.handle_command(Command::KillPane, no_inputs(), 1_000);
    assert_eq!(out.closings.len(), 1);
    assert_eq!(out.closings[0].instructions.len(), 1);
    assert!(!out.closings[0].done.stopped);
    assert!(s.pane_notes.get(second.0, "task").is_none());
    assert_eq!(s.pane_notes.get(1, "task").unwrap(), "build");
    assert_eq!(s.instructions.items.len(), 1);
    assert_eq!(s.sources.panes.len(), 1);
    assert_eq!(s.session.workspace.windows[0].layout.pane_ids(), vec![PaneId(1)]);
}

#[test]
fn a_killed_tab_takes_its_panes_and_the_notes_of_its_project() {
    let mut s = server();
    let other = spawn(&mut s);
    let project = s
        .session
        .workspace
        .add_project("api".into(), "/work/api".into(), other);
    s.session.workspace.switch_project(project);
    let third = split(&mut s);
    note(&mut s, other);
    note(&mut s, third);
    s.project_notes
        .insert(project.0, "branch".into(), "main".into(), None);
    let out = s.handle_command(Command::KillWindow, no_inputs(), 1_000);
    assert_eq!(out.closings.len(), 2);
    assert!(out.closings[0].done.removed_project.is_none());
    assert_eq!(out.closings[1].done.removed_project, Some(project));
    assert!(s.project_notes.get(project.0, "branch").is_none());
    assert!(s.pane_notes.get(other.0, "task").is_none());
    assert!(s.pane_notes.get(third.0, "task").is_none());
    assert!(s.instructions.items.is_empty());
    assert_eq!(s.session.workspace.projects.len(), 1);
}

#[test]
fn killing_the_last_tab_stops_the_server() {
    let mut s = server();
    let out = s.handle_command(Command::KillWindow, no_inputs(), 1_000);
    assert_eq!(out.closings.len(), 1);
    assert!(out.closings[0].done.stopped);
    assert!(!out.effect.persist && !out.effect.repaint);
    assert!(s.session.workspace.windows.is_empty());
}

#[test]
fn what_left_the_hierarchy_is_forgotten() {
    let mut s = server();
    let second = split(&mut s);
    note(&mut s, second);
    s.session.workspace.close_pane(second);
    let gone = s.forget_panes(&vec![second], 1_000);
    assert_eq!(gone.len(), 1);
    assert_eq!(gone[0].pane, second);
    assert_eq!(gone[0].dropped.instructions.len(), 1);
    assert!(gone[0].dropped.retired);
    assert!(s.pane_notes.get(second.0, "task").is_none());
    assert_eq!(s.sources.panes.len(), 1);
    s.project_notes.insert(7, "task".into(), "t".into(), None);
    s.forget_lost_projects(&vec![ProjectId(1), ProjectId(7)]);
    assert!(s.project_notes.get(7, "task").is_none());
}

#[test]
fn ids_are_not_drawn_twice_across_a_restore() {
    let mut s = server();
    let second = split(&mut s);
    let third = split(&mut s);
    s.session.workspace.close_pane(third);
    s.forget_panes(&vec![third], 1_000);
    let saved = s.snapshot();
    assert_eq!(saved.next_pane_id, 4);

    let mut back = server();
    back.restore(saved, &vec![PaneId(1), second], None);
    assert_eq!(back.next_pane_id, 4);
    let mut shown = back.session.workspace.windows[0].layout.pane_ids();
    shown.sort_by_key(|pane| pane.0);
    assert_eq!(shown, vec![PaneId(1), second]);
    assert_eq!(back.draw_pane_id(), PaneId(4));

    let again = s.snapshot();
    let mut bare = server();
    let fresh = spawn(&mut bare);
    bare.restore(again, &Vec::new(), Some(fresh));
    assert_eq!(bare.session.workspace.windows.len(), 1);
    assert_eq!(bare.session.workspace.windows[0].layout.pane_ids(), vec![fresh]);
    assert_eq!(bare.draw_pane_id(), PaneId(4));
}

fn codex() -> Vec<ProviderRules> {
    vec![ProviderRules {
        id: "codex".into(),
        executables: vec!["codex".into()],
        announce_start: "start; ".into(),
        announce_end: "; end".into(),
    }]
}

fn profile(provider: &str, command: &[&str]) -> Option<AgentLaunchSnap> {
    Some(AgentLaunchSnap {
        provider: provider.into(),
        session_id: Some("abc".into()),
        resume_command: command.iter().map(|word| word.to_string()).collect(),
    })
}

fn bare_pane() -> AgentPane {
    AgentPane {
        agent: None,
        foreground_pid: None,
        candidate: None,
        last_detection: None,
        launch_args: None,
        last_evidence_hash: 0,
        last_dev_server_hash: 0,
    }
}

#[test]
fn a_restored_pane_resumes_its_agent_or_gets_a_shell() {
    let saved = vec!["-l".to_string()];
    assert_eq!(restored_launch(&None, &saved, "/bin/sh", &codex()), saved);
    let resumable = profile("codex", &["codex", "resume", "abc"]);
    let args = restored_launch(&resumable, &saved, "/bin/sh", &codex());
    assert_eq!(args.len(), 2);
    assert_eq!(args[0], "-c");
    assert!(args[1].contains("'codex' 'resume' 'abc'"));
    let foreign = profile("codex", &["sh", "-c", "other"]);
    assert!(restored_launch(&foreign, &saved, "/bin/sh", &codex()).is_empty());

    let mut pane = bare_pane();
    assert!(pane.rebind_restored(resumable, &args, Some(7), 500, 9_000));
    let agent = pane.agent.unwrap();
    assert_eq!(agent.id, "codex");
    assert!(agent.status == AgentStatus::Starting);
    assert_eq!(agent.session_id.as_deref(), Some("abc"));
    assert_eq!(agent.resume_command.unwrap(), vec!["codex", "resume", "abc"]);
    assert_eq!(agent.evidence, "restored through provider-owned native resume");
    assert_eq!(agent.started_at, 500);

    let mut shell = bare_pane();
    assert!(!shell.rebind_restored(foreign, &Vec::new(), Some(7), 500, 9_000));
    assert!(shell.agent.is_none());
}

#[test]
fn restored_notes_never_expire() {
    let mut notes = MetadataStore::new();
    notes.insert(3, "old".into(), "gone".into(), Some(1));
    let saved = vec![SavedNote {
        key: "task".into(),
        value: "build".into(),
    }];
    notes.restore_notes(3, &saved);
    assert!(notes.get(3, "old").is_none());
    assert!(!notes.expire(u64::MAX));
    assert_eq!(notes.get(3, "task").unwrap(), "build");
}

#[test]
fn an_agent_card_shows_the_first_note_that_there_is() {
    let mut s = server();
    let facts = |pane: u64, project: u64| AgentFacts {
        pane: PaneId(pane),
        project: ProjectId(project),
        name: "Codex".into(),
        status: AgentStatus::Working,
        label: "working".into(),
        color: "32".into(),
        branch: Some("fix".into()),
        run: Some(RunRole {
            run: 7,
            role: "builder".into(),
        }),
    };
    let card = s.agent_card(&facts(1, 1));
    assert!(card.active);
    assert_eq!(card.style, "\u{1b}[0;1;32;49m");
    assert_eq!(card.project.as_deref(), Some("web"));
    assert_eq!(card.branch.as_deref(), Some("fix"));
    assert_eq!(card.run.as_deref(), Some("Run 7 / builder"));
    assert!(card.note.is_none());

    for (key, value) in [
        ("cwd", "/work"),
        ("title", "T"),
        ("branch", "B"),
        ("model", "M"),
        ("task", "K"),
    ] {
        s.pane_notes.insert(1, key.into(), value.into(), None);
        assert_eq!(s.agent_card(&facts(1, 1)).note.as_deref(), Some(value));
    }

    let elsewhere = s.agent_card(&facts(5, 9));
    assert!(!elsewhere.active);
    assert_eq!(elsewhere.style, "\u{1b}[0;32;49m");
    assert!(elsewhere.project.is_none() && elsewhere.branch.is_none());
}

#[test]
fn a_project_card_prefers_the_worktree_to_notes_and_the_path() {
    let mut s = server();
    let home = Some("/work");
    let needy = vec![PaneId(1)];
    let plain = s.project_card(0, &None, &needy, home);
    assert_eq!(plain.name, "web");
    assert!(plain.active);
    assert_eq!(plain.attention, 1);
    assert_eq!(plain.detail, "~/web");

    for (key, value) in [("task", "t"), ("environment", "e"), ("branch", "b")] {
        s.project_notes.insert(1, key.into(), value.into(), None);
        assert_eq!(s.project_card(0, &None, &Vec::new(), home).detail, value);
    }
    let tree = Some(ProjectWorktree {
        branch: "fix".into(),
        repository: "/work/web".into(),
    });
    let card = s.project_card(0, &tree, &Vec::new(), home);
    assert_eq!(card.detail, "fix \u{b7} ~/web");
    assert_eq!(card.attention, 0);
}

fn at(cx: u16, cy: u16) -> PointInputs {
    PointInputs {
        cx,
        cy,
        agent: None,
        redivided: None,
        panes: facts(),
        marked: false,
        chosen: None,
        file: FileClick {
            action: FileAction::Idle,
            focused: false,
        },
    }
}

fn facts() -> PaneFacts {
    PaneFacts {
        client: Token(20),
        under: None,
        held: None,
        finished: false,
        link: false,
        freeze: false,
        copy_on_select: false,
    }
}

fn tracking(mode: MouseMode) -> PaneMouse {
    PaneMouse {
        mode,
        sgr: true,
        alt_screen: false,
        app_cursor: false,
        scrollback: false,
        copying: false,
    }
}

fn over(pane: u64, step: PaneStep) -> MouseStep {
    MouseStep::Pane {
        pane: Some(PaneId(pane)),
        step,
    }
}

#[test]
fn a_scope_toggle_scrolls_its_list_back() {
    let mut s = server();
    let mut pointer = PointerState::new();
    pointer.agents_scroll = 4;
    pointer.servers_scroll = 5;
    assert!(s.agent_scope == SidebarScope::Project);
    let step = MouseStep::ToggleScope(ObservatoryTab::Agents);
    let out = s.apply_mouse(&mut pointer, step, at(0, 0)).effect;
    assert!(s.agent_scope == SidebarScope::Workspace);
    assert_eq!((pointer.agents_scroll, pointer.servers_scroll), (0, 5));
    assert!(out.repaint && out.remember && !out.persist);

    let scroll = MouseStep::ScrollObservatory {
        tab: ObservatoryTab::WebServers,
        up: true,
    };
    assert!(s.apply_mouse(&mut pointer, scroll, at(0, 0)).effect.repaint);
    assert_eq!(pointer.servers_scroll, 4);
}

#[test]
fn a_divider_is_grabbed_dragged_and_dropped() {
    let mut s = server();
    split(&mut s);
    let canvas = s.session.current_canvas();
    let divider = s.session.workspace.relayout(&canvas).dividers[0];
    let mut pointer = PointerState::new();
    s.apply_mouse(&mut pointer, MouseStep::GrabDivider(divider), at(0, 0));
    assert!(pointer.divider == Some(divider));

    let moved = match &s.session.workspace.windows[0].layout {
        LayoutNode::Split { dir, first, second, .. } => match (&**first, &**second) {
            (LayoutNode::Leaf(a), LayoutNode::Leaf(b)) => LayoutNode::Split {
                dir: *dir,
                ratio: 3_000,
                first: Box::new(LayoutNode::Leaf(*a)),
                second: Box::new(LayoutNode::Leaf(*b)),
            },
            _ => unreachable!(),
        },
        LayoutNode::Leaf(_) => unreachable!(),
    };
    let drag = PointInputs {
        redivided: Some(moved),
        ..at(50, 3)
    };
    let out = s.apply_mouse(&mut pointer, MouseStep::DragDivider(divider), drag).effect;
    assert!(out.relayout && out.repaint && !out.persist);
    let next = s.session.workspace.relayout(&canvas).dividers[0];
    assert!(next != divider);
    assert!(pointer.divider == Some(next));

    let out = s.apply_mouse(&mut pointer, MouseStep::DropDivider, at(50, 3)).effect;
    assert!(out.persist);
    assert!(pointer.divider.is_none());
}

#[test]
fn a_zoomed_pane_keeps_the_division_of_its_tab() {
    let mut s = server();
    split(&mut s);
    s.handle_command(Command::ZoomToggle, no_inputs(), 1_000);
    let canvas = s.session.current_canvas();
    s.session.workspace.windows[0].zoomed = None;
    let divider = s.session.workspace.relayout(&canvas).dividers[0];
    s.session.workspace.windows[0].zoomed = Some(PaneId(2));
    let mut pointer = PointerState::new();
    pointer.divider = Some(divider);
    let same = match &s.session.workspace.windows[0].layout {
        LayoutNode::Split { dir, .. } => LayoutNode::Split {
            dir: *dir,
            ratio: 3_000,
            first: Box::new(LayoutNode::Leaf(PaneId(1))),
            second: Box::new(LayoutNode::Leaf(PaneId(2))),
        },
        LayoutNode::Leaf(_) => unreachable!(),
    };
    let drag = PointInputs {
        redivided: Some(same),
        ..at(50, 3)
    };
    let out = s.apply_mouse(&mut pointer, MouseStep::DragDivider(divider), drag).effect;
    assert!(!out.relayout && !out.repaint);
    assert!(pointer.divider == Some(divider));
    assert!(matches!(
        s.session.workspace.windows[0].layout,
        LayoutNode::Split { ratio: 5_000, .. }
    ));
}

#[test]
fn a_clicked_agent_is_shown_and_the_tab_bar_follows() {
    let mut s = server();
    let second = spawn(&mut s);
    let out = s.open_tab(Some(second));
    assert!(out.relayout && out.repaint && out.persist);
    assert_eq!(s.session.workspace.active_window, 1);
    s.session.workspace.tab_scroll_follow_active = false;
    let mut pointer = PointerState::new();
    let click = PointInputs {
        agent: Some(PaneId(1)),
        ..at(0, 0)
    };
    let out = s.apply_mouse(&mut pointer, MouseStep::ShowAgent(0), click).effect;
    assert!(out.relayout && out.persist);
    assert_eq!(s.session.workspace.active_window, 0);
    assert!(s.session.workspace.tab_scroll_follow_active);

    let out = s.apply_mouse(&mut pointer, MouseStep::ShowAgent(3), at(0, 0)).effect;
    assert!(!out.relayout && !out.persist);

    s.session.workspace.tab_scroll_follow_active = false;
    let failed = s.open_tab(None);
    assert!(!failed.relayout && failed.persist);
    assert!(s.session.workspace.tab_scroll_follow_active);
    assert_eq!(s.session.workspace.windows.len(), 2);
}

#[test]
fn a_clicked_notification_shows_its_pane_and_goes() {
    let mut s = server();
    let second = spawn(&mut s);
    s.open_tab(Some(second));
    s.toast = Some(Toast {
        pane: PaneId(1),
        title: "t".into(),
        body: "b".into(),
        expires: 9,
    });
    let mut pointer = PointerState::new();
    let out = s.apply_mouse(&mut pointer, MouseStep::OpenToast, at(0, 0)).effect;
    assert!(out.relayout && out.repaint && !out.persist);
    assert!(s.toast.is_none());
    assert_eq!(s.session.workspace.active_window, 0);
}

#[test]
fn a_blank_selection_is_not_yanked() {
    assert!(yanked(" \u{3000}\n".into()).is_none());
    assert_eq!(yanked(" a ".into()).as_deref(), Some(" a "));
}

#[test]
fn every_white_space_character_is_trimmed() {
    assert_eq!(trim("\u{85}\u{a0}\u{2028}x\u{205f}\u{1680}\t"), "x");
    assert_eq!(trim("\u{200b}x"), "\u{200b}x");
}

#[test]
fn large_buttons_are_reported_in_the_wide_encoding() {
    assert_eq!(
        encode_mouse_report(true, 255, true, 1, 2),
        b"\x1b[<255;1;2M".to_vec()
    );
    assert_eq!(
        encode_mouse_report(false, 223, true, 1, 2),
        vec![0x1b, b'[', b'M', 255, 33, 34]
    );
}

#[test]
fn an_armed_checkpoint_is_never_moved() {
    let due = arm_dirty_snapshot(None, 10_000);
    assert_eq!(due, 12_000);
    assert_eq!(arm_dirty_snapshot(Some(due), u64::MAX), due);
}

#[test]
fn queues_stay_within_their_limits() {
    let mut queue = ClientQueue::new(10);
    assert!(!queue.queue(&[1; 10]));
    assert!(queue.queue(&[1]));
    assert!(queue.unsent().len() <= 10);

    let mut input = PaneInput::new();
    assert!(input.queue(&vec![1; MAX_PENDING_INPUT]));
    assert!(!input.queue(&[1]));
    assert_eq!(input.unsent().len(), MAX_PENDING_INPUT);
}

#[test]
fn a_click_or_a_hover_over_a_pane_moves_the_focus() {
    let mut s = server();
    split(&mut s);
    assert_eq!(s.session.workspace.windows[0].active, PaneId(2));
    let mut pointer = PointerState::new();
    let press = PointInputs {
        panes: PaneFacts {
            under: Some(tracking(MouseMode::Any)),
            ..facts()
        },
        ..at(30, 5)
    };
    let out = s.apply_mouse(&mut pointer, over(1, PaneStep::Press), press);
    assert_eq!(s.session.workspace.windows[0].active, PaneId(1));
    assert_eq!(s.session.workspace.last_active_pane, Some(PaneId(2)));
    assert!(out.effect.relayout && out.effect.repaint && !out.effect.persist);
    assert!(
        out.act
            == PaneAct::Tell {
                pane: PaneId(1),
                kind: MouseKind::Click
            }
    );
    assert!(pointer.selection.is_none());

    let out = s.apply_mouse(&mut pointer, over(1, PaneStep::Hover), at(30, 5));
    assert!(!out.effect.relayout && !out.effect.repaint);
    let out = s.apply_mouse(&mut pointer, over(2, PaneStep::Hover), at(90, 5));
    assert!(out.effect.relayout);
    assert_eq!(s.session.workspace.windows[0].active, PaneId(2));
    let out = s.apply_mouse(&mut pointer, over(1, PaneStep::Nothing), at(30, 5));
    assert!(out.act == PaneAct::Nothing);
    assert_eq!(s.session.workspace.windows[0].active, PaneId(2));
    let out = s.apply_mouse(&mut pointer, over(1, PaneStep::Wheel { up: true }), at(30, 5));
    assert!(
        out.act
            == PaneAct::Wheel {
                pane: PaneId(1),
                up: true
            }
    );
    assert_eq!(s.session.workspace.windows[0].active, PaneId(2));
}

#[test]
fn a_press_a_drag_and_a_release_select_text() {
    let mut s = server();
    split(&mut s);
    let mut pointer = PointerState::new();
    let plain = tracking(MouseMode::Off);
    let press = PointInputs {
        panes: PaneFacts {
            under: Some(plain),
            ..facts()
        },
        ..at(30, 5)
    };
    s.apply_mouse(&mut pointer, over(1, PaneStep::Press), press);
    let armed = pointer.selection.unwrap();
    assert_eq!((armed.pane, armed.press_x, armed.press_y), (PaneId(1), 30, 5));
    assert!(!armed.selecting && !armed.deferred_press);

    let held = |copy_on_select: bool| PaneFacts {
        held: Some(plain),
        copy_on_select,
        ..facts()
    };
    let drag = PointInputs {
        panes: held(true),
        ..at(90, 6)
    };
    let out = s.apply_mouse(&mut pointer, over(2, PaneStep::Drag), drag);
    assert!(
        out.act
            == PaneAct::Select(DragStep {
                pane: PaneId(1),
                enter_copy: true,
                anchor: Some((30, 5))
            })
    );
    assert!(out.effect.repaint);
    assert!(pointer.selection.unwrap().selecting);

    let release = PointInputs {
        panes: held(true),
        ..at(90, 6)
    };
    let out = s.apply_mouse(&mut pointer, over(2, PaneStep::Release), release);
    assert!(out.act == PaneAct::Finish(FinishStep::Yank(PaneId(1))));
    assert!(out.effect.repaint);
    assert!(pointer.selection.is_none());
}

#[test]
fn a_plain_click_is_delivered_or_opens_a_link() {
    let mut s = server();
    let mut pointer = PointerState::new();
    let owner = tracking(MouseMode::Any);
    let withheld = PointInputs {
        panes: PaneFacts {
            under: Some(owner),
            freeze: true,
            ..facts()
        },
        ..at(30, 5)
    };
    let out = s.apply_mouse(&mut pointer, over(1, PaneStep::Press), withheld);
    assert!(out.act == PaneAct::Nothing);
    assert!(pointer.selection.unwrap().deferred_press);
    let release = PointInputs {
        panes: PaneFacts {
            held: Some(owner),
            ..facts()
        },
        ..at(30, 5)
    };
    let out = s.apply_mouse(&mut pointer, over(1, PaneStep::Release), release);
    assert!(
        out.act
            == PaneAct::Finish(FinishStep::DeliverClick {
                pane: PaneId(1),
                press_x: 30,
                press_y: 5
            })
    );
    assert!(!out.effect.repaint);

    let plain = tracking(MouseMode::Off);
    let press = PointInputs {
        panes: PaneFacts {
            under: Some(plain),
            ..facts()
        },
        ..at(30, 5)
    };
    s.apply_mouse(&mut pointer, over(1, PaneStep::Press), press);
    let on_link = PointInputs {
        panes: PaneFacts {
            held: Some(plain),
            link: true,
            ..facts()
        },
        ..at(30, 5)
    };
    let out = s.apply_mouse(&mut pointer, over(1, PaneStep::Release), on_link);
    assert!(out.act == PaneAct::OpenLink(Token(20)));
    assert!(pointer.selection.is_none());

    let out = s.apply_mouse(&mut pointer, over(1, PaneStep::Release), at(30, 5));
    assert!(
        out.act
            == PaneAct::Tell {
                pane: PaneId(1),
                kind: MouseKind::Release
            }
    );
}

#[test]
fn a_drag_drops_the_selection_of_a_pane_that_is_gone() {
    let mut s = server();
    let mut pointer = PointerState::new();
    let press = PointInputs {
        panes: PaneFacts {
            under: Some(tracking(MouseMode::Off)),
            ..facts()
        },
        ..at(30, 5)
    };
    s.apply_mouse(&mut pointer, over(1, PaneStep::Press), press);
    assert!(pointer.selection.is_some());
    let out = s.apply_mouse(&mut pointer, over(1, PaneStep::Drag), at(31, 5));
    assert!(pointer.selection.is_none());
    assert!(
        out.act
            == PaneAct::Tell {
                pane: PaneId(1),
                kind: MouseKind::Drag
            }
    );
}

#[test]
fn the_sidebar_and_menus_follow_the_mouse() {
    let mut s = server();
    let mut pointer = PointerState::new();
    let files = MouseStep::SelectObservatory(ObservatoryTab::Files);
    let out = s.apply_mouse(&mut pointer, files, at(0, 0));
    assert!(s.session.view.observatory_tab == ObservatoryTab::Files);
    assert_eq!(
        out.switch,
        Some(TabSwitch {
            stop_files: false,
            watch_servers: false,
            sync_files: true
        })
    );
    assert!(out.effect.relayout && out.effect.repaint);
    let out = s.apply_mouse(&mut pointer, files, at(0, 0));
    assert!(out.switch.is_none() && !out.effect.repaint);

    let click = PointInputs {
        file: FileClick {
            action: FileAction::Open {
                path: "/work/web/a".into(),
                command: "vi".into(),
            },
            focused: true,
        },
        ..at(0, 0)
    };
    let out = s.apply_mouse(&mut pointer, MouseStep::ClickFile(2), click);
    assert!(s.session.view.files_focused);
    let done = out.files.unwrap();
    assert!(done.repaint && done.sync_watches);
    assert!(matches!(done.send, Some(FileCommand::Open { .. })));

    let open = MouseStep::OpenContextMenu(MenuSpot::Pane(PaneId(1)));
    let out = s.apply_mouse(&mut pointer, open, at(30, 5));
    assert!(s.session.view.context_menu && !s.session.view.files_focused);
    assert!(out.effect.repaint);
    let mark = PointInputs {
        marked: true,
        ..at(31, 6)
    };
    let out = s.apply_mouse(&mut pointer, MouseStep::ContextMenu(MenuMouse::Mark), mark);
    assert!(out.effect.repaint && out.run.is_none());
    assert!(s.session.view.context_menu);
    let choose = PointInputs {
        chosen: Some(ContextAction::Zoom),
        ..at(31, 6)
    };
    let out = s.apply_mouse(&mut pointer, MouseStep::ContextMenu(MenuMouse::Choose), choose);
    assert_eq!(out.run, Some(ContextAction::Zoom));
    assert!(!s.session.view.context_menu && !out.effect.repaint);
}

#[test]
fn a_closed_panes_process_retires_with_a_time_to_kill_it() {
    let mut s = server();
    let other = spawn(&mut s);
    s.open_tab(Some(other));
    assert!(s.retiring_ptys.is_empty());
    let closing = s.close_pane(PaneId(1), 1_000);
    assert!(closing.retired && !closing.done.stopped);
    assert!(s.sources.panes.iter().all(|one| one.pane != PaneId(1)));
    assert_eq!(s.session.workspace.windows.len(), 1);
    assert_eq!(s.session.workspace.windows[0].active, other);
    assert!(s.running);
    assert_eq!(s.retiring_ptys.len(), 1);
    assert_eq!(s.retiring_ptys[0].pane, PaneId(1));
    assert_eq!(s.retiring_ptys[0].pty.kill_at, Some(1_015));
    assert!(!s.retiring_ptys[0].pty.child_exited);
    assert_eq!(s.next_reap_deadline(1_000), Some(1_000));

    let tokens = s.draw_retiring(PaneId(1)).unwrap();
    assert!(tokens.terminal != tokens.exit);
    s.retiring_registered(PaneId(1), true, true);
    assert_eq!(s.on_retiring_pty(Token(9_999)), RetiringEvent::Other);
    assert_eq!(s.on_retiring_pty(tokens.terminal), RetiringEvent::Readable);
    assert_eq!(
        s.on_retiring_pty(tokens.exit),
        RetiringEvent::Exited {
            pane: PaneId(1),
            collect: false
        }
    );
    s.retiring_exited(PaneId(1), false);
    assert!(!s.retiring_ptys[0].pty.watched);
    assert!(s.draw_retiring(other).is_none());

    let staged = spawn(&mut s);
    s.discard_pane(staged, 2_000);
    assert_eq!(s.retiring_ptys.len(), 2);
    s.discard_pane(staged, 2_000);
    assert_eq!(s.retiring_ptys.len(), 2);
}

fn msg_facts(has_agent: bool, permitted: bool) -> MsgFacts {
    MsgFacts {
        pane_exists: true,
        has_agent,
        copying: false,
        panes: 2,
        overview_cols: 1,
        permitted,
        worktree: false,
        now: 10_000,
        all_panes: vec![PaneId(1), PaneId(2)],
        agent_panes: vec![PaneId(2)],
    }
}

#[test]
fn what_a_message_closes_is_forgotten_everywhere() {
    let mut s = server();
    let second = split(&mut s);
    note(&mut s, second);
    let stop = || ClientMessage::AgentStop { pane: second };
    let out = s.handle_msg(Token(20), stop(), &msg_facts(false, true));
    assert!(matches!(out.step, MsgStep::Ignored));
    assert!(out.gone.is_empty());
    let out = s.handle_msg(Token(20), stop(), &msg_facts(true, true));
    assert!(matches!(out.step, MsgStep::PaneClosed(_)));
    assert_eq!(out.gone.len(), 1);
    assert!(s.pane_notes.get(second.0, "task").is_none());
    assert!(s.instructions.items.is_empty());
    assert_eq!(s.retiring_ptys.len(), 1);

    let other = spawn(&mut s);
    let project = s
        .session
        .workspace
        .add_project("api".into(), "/work/api".into(), other);
    note(&mut s, other);
    s.project_notes
        .insert(project.0, "branch".into(), "main".into(), None);
    let remove = || ClientMessage::ProjectRemove { project };
    let out = s.handle_msg(Token(20), remove(), &msg_facts(false, false));
    assert!(matches!(out.step, MsgStep::RemovalUnconfirmed));
    assert_eq!(s.project_notes.get(project.0, "branch").unwrap(), "main");
    let out = s.handle_msg(Token(20), remove(), &msg_facts(false, true));
    assert!(matches!(out.step, MsgStep::ProjectRemoved(Some(_))));
    assert_eq!(out.gone[0].pane, other);
    assert!(s.project_notes.get(project.0, "branch").is_none());
    assert!(s.pane_notes.get(other.0, "task").is_none());
    assert_eq!(s.retiring_ptys.len(), 2);
}

#[test]
fn what_a_request_closes_is_forgotten_everywhere() {
    let mut s = server();
    let second = split(&mut s);
    note(&mut s, second);
    let facts = ControlFacts {
        version: 1,
        sequence: 0,
        permitted: true,
        worktree: false,
        spawned: None,
        has_agent: true,
        all_panes: vec![PaneId(1), second],
        agent_panes: vec![second],
    };
    let request = |workspace: &str| ControlRequest {
        version: 1,
        workspace: workspace.into(),
        command: ControlCommand::AgentStop { pane: second },
    };
    let out = s.on_control_request(&request("other"), &facts, 1_000);
    assert!(matches!(
        out.outcome.reply,
        Some(ControlReply::Refused(ControlError::WorkspaceMismatch))
    ));
    assert!(out.gone.is_empty());
    assert_eq!(s.instructions.items.len(), 1);
    let out = s.on_control_request(&request("work"), &facts, 1_000);
    assert!(out.outcome.closed.is_some());
    assert_eq!(out.gone.len(), 1);
    assert!(s.instructions.items.is_empty());
    assert_eq!(s.retiring_ptys.len(), 1);
}

#[test]
fn a_restore_retires_every_process_that_was_there() {
    let mut s = server();
    let second = split(&mut s);
    assert_eq!(s.retire_all(1_000), vec![PaneId(1), second]);
    assert!(s.sources.panes.is_empty());
    assert_eq!(s.retiring_ptys.len(), 2);
    assert_eq!(s.retiring_ptys[1].pty.kill_at, Some(1_015));
}

#[test]
fn a_click_finds_its_pane_and_focuses_it() {
    let mut s = server();
    split(&mut s);
    let mut pointer = PointerState::new();
    let canvas = s.session.current_canvas();
    let chrome = PointerView {
        canvas,
        name_width: 4,
        status_at_bottom: false,
        bar: TabBarLayout {
            tabs: Vec::new(),
            scroll_left: None,
            scroll_right: None,
            new_tab: None,
            hidden_before: false,
            hidden_after: false,
        },
        slots: Vec::new(),
        observatory_tab: ObservatoryTab::Files,
        project_slots: Vec::new(),
        agent_slots: Vec::new(),
        agents: 0,
        agent_actions: Vec::new(),
        agent_scope_x: 0,
        agent_scope_width: 0,
        server_slots: Vec::new(),
        servers: 0,
        server_scope_x: 0,
        server_scope_width: 0,
        file_rows: file_sidebar_rows_for(canvas.chrome_area().area, false),
        tiles: Vec::new(),
        panes: Vec::new(),
        dividers: Vec::new(),
        tracking: Vec::new(),
        pane_right_click: false,
        focus_follows: true,
        menu_open: true,
        toast: true,
        divider_drag: None,
        armed: true,
        latest: None,
    };
    let view = s.aim(&pointer, chrome);
    assert!(!view.menu_open && !view.toast && !view.armed && !view.focus_follows);
    assert!(view.status_at_bottom);
    assert!(view.observatory_tab == ObservatoryTab::Agents);
    let first = view.panes[0];
    assert_eq!(first.pane, PaneId(1));
    let (x, y) = (first.rect.x + 1, first.rect.y + 1);
    let step = s.session.workspace.on_mouse(&view, x, y, MouseKind::Click);
    assert_eq!(step, over(1, PaneStep::Press));
    s.apply_mouse(&mut pointer, step, at(x - 1, y - 1));
    assert_eq!(s.session.workspace.windows[0].active, PaneId(1));
}

fn add(s: &mut Server, name: &str) -> (ProjectId, PaneId, FileTreeChange) {
    let pane = spawn(s);
    let added = s.add_project(name.into(), format!("/work/{name}"), pane);
    (added.id, pane, added.follow)
}

#[test]
fn a_shown_file_tree_follows_the_active_project() {
    let mut s = server();
    s.session.view.observatory_tab = ObservatoryTab::Agents;
    let (api, pane, follow) = add(&mut s, "api");
    assert_eq!(api, ProjectId(2));
    assert_eq!(s.session.workspace.active_project, api);
    assert_eq!(s.session.workspace.windows.len(), 2);
    assert_eq!(follow, FileTreeChange::Nothing);

    s.session.view.observatory_tab = ObservatoryTab::Files;
    s.session.view.files_focused = true;
    let focus = |pane: PaneId| ClientMessage::PaneFocus { pane };
    let facts = msg_facts(false, true);
    let out = s.handle_msg(Token(20), focus(pane), &facts);
    assert_eq!(out.follow, FileTreeChange::Nothing);
    let out = s.handle_msg(Token(20), focus(PaneId(1)), &facts);
    assert_eq!(out.follow, FileTreeChange::Sync { focus: true });

    s.session.view.files_focused = false;
    let request = ControlRequest {
        version: 1,
        workspace: "work".into(),
        command: ControlCommand::HierarchyFocus {
            project: api,
            tab: 1,
            ordinal: None,
        },
    };
    let control = ControlFacts {
        version: 1,
        sequence: 0,
        permitted: true,
        worktree: false,
        spawned: None,
        has_agent: false,
        all_panes: Vec::new(),
        agent_panes: Vec::new(),
    };
    let out = s.on_control_request(&request, &control, 1_000);
    assert_eq!(s.session.workspace.active_project, api);
    assert_eq!(out.follow, FileTreeChange::Sync { focus: false });

    let command = s.handle_command(Command::SelectWindow(0), no_inputs(), 1_000);
    assert_eq!(command.follow, FileTreeChange::Nothing);

    s.session.view.files_focused = true;
    let remove = ClientMessage::ProjectRemove { project: api };
    let out = s.handle_msg(Token(20), remove, &facts);
    assert!(matches!(out.step, MsgStep::ProjectRemoved(Some(_))));
    assert_eq!(out.follow, FileTreeChange::Sync { focus: false });
}

#[test]
fn a_closed_pane_takes_the_focus_out_of_the_file_tree() {
    let mut s = server();
    s.session.view.observatory_tab = ObservatoryTab::Files;
    s.session.view.files_focused = true;
    let (_, pane, follow) = add(&mut s, "api");
    assert_eq!(follow, FileTreeChange::Sync { focus: true });
    let stop = ClientMessage::AgentStop { pane };
    let out = s.handle_msg(Token(20), stop, &msg_facts(true, true));
    assert!(matches!(out.step, MsgStep::PaneClosed(_)));
    assert_eq!(s.session.workspace.active_project, ProjectId(1));
    assert_eq!(out.follow, FileTreeChange::Sync { focus: false });
}

#[test]
fn a_menu_closes_a_pane_everywhere() {
    let mut s = server();
    let second = split(&mut s);
    note(&mut s, second);
    let area = s.session.current_canvas().chrome_area().area;
    let target = || ContextTarget::Pane(second);
    let out = s.run_context_action(
        target(),
        ContextAction::MoveToNewTab,
        area,
        String::new(),
        1_000,
    );
    assert!(matches!(out.step, MenuStep::Moved));
    assert!(out.closing.is_none());
    assert_eq!(s.session.workspace.windows.len(), 2);
    assert!(s.pane_notes.get(second.0, "task").is_some());

    let out = s.run_context_action(
        target(),
        ContextAction::ClosePane,
        area,
        String::new(),
        1_000,
    );
    assert!(matches!(out.step, MenuStep::Closed(_)));
    assert!(!out.closing.unwrap().done.stopped);
    assert_eq!(s.session.workspace.windows.len(), 1);
    assert!(s.pane_notes.get(second.0, "task").is_none());
    assert!(s.instructions.items.is_empty());
    assert_eq!(s.retiring_ptys.len(), 1);
}

#[test]
fn an_import_reaches_the_notes_and_the_file_tree() {
    let import = ImportedWorkspace {
        projects: vec![
            ImportedProject {
                name: "web".into(),
                root: "/work/web".into(),
                source_id: "id-web".into(),
                tabs: vec![ImportedTab { name: None }],
            },
            ImportedProject {
                name: "docs".into(),
                root: "/work/docs".into(),
                source_id: "id-docs".into(),
                tabs: vec![ImportedTab { name: None }, ImportedTab { name: None }],
            },
        ],
    };
    let mut s = server();
    let slots = s
        .session
        .workspace
        .plan_import(&import, &vec![true, true], ImportMode::Fresh)
        .unwrap();
    let panes: Vec<PaneId> = slots.iter().map(|_| spawn(&mut s)).collect();
    let report = s
        .import_workspace(&import, &panes, ImportMode::Fresh)
        .unwrap();
    assert_eq!((report.projects, report.tabs, report.merged), (2, 3, 0));
    assert_eq!(s.session.workspace.windows.len(), 3);
    assert_eq!(s.session.workspace.projects.len(), 2);
    assert_eq!(s.files.project, ProjectId(1));
    assert_eq!(s.files.root, "/work/web");

    let slots = s
        .session
        .workspace
        .plan_import(&import, &vec![true, true], ImportMode::Merge)
        .unwrap();
    let panes: Vec<PaneId> = slots.iter().map(|_| spawn(&mut s)).collect();
    let projects = s.session.workspace.projects.len();
    let report = s
        .import_workspace(&import, &panes, ImportMode::Merge)
        .unwrap();
    assert_eq!(report.merged, 2);
    assert_eq!(s.session.workspace.projects.len(), projects);
    assert_eq!(s.files.root, "/work/web");
    let panes: Vec<PaneId> = (0..3).map(|_| spawn(&mut s)).collect();
    assert!(s
        .import_workspace(&import, &panes, ImportMode::Fresh)
        .is_err());
    assert_eq!(s.files.root, "/work/web");
}

#[test]
fn a_frame_takes_up_how_far_its_lists_are_scrolled() {
    let slot = |item: usize| CardSlot {
        item,
        rect: Rect::new(0, 3, 20, 3),
    };
    let drawn = DrawnLists {
        projects: vec![slot(1), slot(2)],
        agents: vec![slot(3)],
        servers: Vec::new(),
        tab_scroll: 4,
    };
    let mut s = server();
    let mut pointer = PointerState::new();
    pointer.servers_scroll = 6;
    s.session.workspace.tab_scroll_follow_active = true;
    s.sync_chrome_viewports(&mut pointer, &drawn);
    assert_eq!(s.session.workspace.project_scroll, 1);
    assert_eq!(s.session.workspace.tab_scroll, 4);
    assert!(!s.session.workspace.tab_scroll_follow_active);
    assert_eq!((pointer.agents_scroll, pointer.servers_scroll), (3, 0));

    s.session.view.sidebar = false;
    s.session.view.file_sidebar = false;
    s.session.workspace.project_scroll = 9;
    pointer.agents_scroll = 8;
    s.sync_chrome_viewports(&mut pointer, &drawn);
    assert_eq!(s.session.workspace.project_scroll, 9);
    assert_eq!(pointer.agents_scroll, 8);
}

#[test]
fn the_file_tree_has_room_where_it_is_shown() {
    let mut s = server();
    s.session.view.observatory_tab = ObservatoryTab::Files;
    let area = s.session.current_canvas().chrome_area().area;
    let rows = file_sidebar_rows_for(area, false);
    let room = (rows.tree_end - rows.tree_start) as usize;
    assert!(room > 0);
    assert_eq!(s.sync_file_viewport(false), Some(room));
    assert_eq!(s.sync_file_viewport(true), Some(room - 2));
    s.session.view.observatory_tab = ObservatoryTab::Agents;
    assert_eq!(s.sync_file_viewport(false), None);
}

#[test]
fn a_remembered_workspace_comes_back_with_its_preferences() {
    let mut s = server();
    add(&mut s, "api");
    let definition = s
        .session
        .workspace
        .workspace_definition(SidebarScope::Workspace, SidebarScope::Project)
        .unwrap();
    let mut other = server();
    let (first, second) = (spawn(&mut other), spawn(&mut other));
    let tab = |project: u64, pane: PaneId| RestoredTab {
        project: ProjectId(project),
        name: None,
        layout: LayoutNode::Leaf(pane),
    };
    let tabs = vec![tab(1, first), tab(2, second)];
    assert!(other.restore_workspace_definition(&definition, tabs));
    assert_eq!(other.agent_scope, SidebarScope::Workspace);
    assert_eq!(other.server_scope, SidebarScope::Project);
    assert_eq!(other.session.workspace.active_project, ProjectId(2));
    assert_eq!(other.session.workspace.active_window, 1);
    assert_eq!(other.session.workspace.next_project_id, 3);
    assert!(!other.restore_workspace_definition(&definition, Vec::new()));
}

fn no_change() -> SettingsPatch {
    SettingsPatch {
        theme: None,
        status: None,
        status_top: None,
        sidebar: None,
        sidebar_width: None,
        file_sidebar: None,
        file_sidebar_width: None,
        notification_delivery: None,
        notify_completion: None,
        focus_follows_mouse: None,
        confirm_close: None,
        confirm_tab_close: None,
        scrollback_limit: None,
        restore: None,
        guardrail_max_active_runs: None,
        guardrail_max_role_panes: None,
        guardrail_max_iterations: None,
        guardrail_max_elapsed_minutes: None,
        guardrail_allowed_projects: None,
        editor: None,
        editor_rules: None,
    }
}

const LIMITS: GuardBounds = GuardBounds {
    max_elapsed_seconds: 86_400,
    max_iterations: 50,
    max_active_runs: 16,
    max_role_panes: 32,
};

#[test]
fn what_is_shown_follows_the_settings() {
    let mut s = server();
    s.session.view.observatory_tab = ObservatoryTab::Files;
    s.session.view.files_focused = true;
    let hidden = SettingsPatch {
        sidebar: Some(false),
        status: Some(false),
        ..no_change()
    };
    let out = s.apply_settings(hidden, LIMITS);
    assert!(matches!(out.outcome, SettingsOutcome::Applied(_)));
    assert_eq!(out.files, FileTreeChange::Sync { focus: false });
    let canvas = s.session.current_canvas();
    assert!(!canvas.sidebar && !canvas.status);
    assert_eq!(canvas.left_width(), 0);
    assert!(s.session.view.files_focused);

    let closed = SettingsPatch {
        file_sidebar: Some(false),
        notification_delivery: Some(NotificationDelivery::Off),
        ..no_change()
    };
    s.toast = Some(Toast {
        pane: PaneId(1),
        title: "t".into(),
        body: "b".into(),
        expires: 9_000,
    });
    let out = s.apply_settings(closed, LIMITS);
    assert_eq!(out.files, FileTreeChange::Stop);
    assert!(!s.session.view.files_focused);
    assert!(s.toast.is_none());

    let refused = SettingsPatch {
        sidebar: Some(true),
        guardrail_allowed_projects: Some(Err("no such Project".into())),
        ..no_change()
    };
    let out = s.apply_settings(refused, LIMITS);
    assert!(matches!(out.outcome, SettingsOutcome::Refused(_)));
    assert_eq!(out.files, FileTreeChange::Nothing);
    assert!(!s.runtime.config.sidebar);
}

#[test]
fn a_switched_sidebar_is_switched_in_the_settings() {
    let mut s = server();
    s.handle_command(Command::SidebarToggle, no_inputs(), 1_000);
    assert!(!s.runtime.config.sidebar);
    assert!(!s.runtime.config.settings_snapshot().sidebar);
    s.handle_command(Command::Observatory, no_inputs(), 1_000);
    assert!(!s.runtime.config.file_sidebar);
    let wider = SettingsPatch {
        sidebar_width: Some(30),
        ..no_change()
    };
    s.apply_settings(wider, LIMITS);
    assert!(!s.session.view.sidebar && !s.session.view.file_sidebar);
    assert_eq!(s.session.frame.sidebar_width, 30);
}
