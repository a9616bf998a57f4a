use uniterm_server::checkpoint::LiveInvocation;
use uniterm_server::detection::{
    AgentPane, AgentStatus, DetectionAuthority, DetectionProvenance, DetectionSource, PaneAgent,
    Verdict,
};
use uniterm_server::dev_servers::{DevServers, FoundServer};
use uniterm_server::hierarchy::{Project, Win, Workspace};
use uniterm_server::instruction::{
    instruction_invocation, Handover, InstructionAuthor, InstructionCommand, InstructionQueue,
    Sending,
};
use uniterm_server::launch::{choose_restored_cwd, shell_join, shell_quote};
use uniterm_server::layout::LayoutNode;
use uniterm_server::notices::{expire_toast, ChangedAgent, ChimeKind, Notice};
use uniterm_server::notify::{still_current, terminal_notice, Notifications};
use uniterm_server::observatory::{BoundAgent, DevServer, ServerAction, ServerStep};
use uniterm_server::pane_events::{evidence_hash, plan_pty_turn, AgentEvent, Checkpoint, PtyTurn};
use uniterm_server::records::KnownPane;
use uniterm_server::settings::NotificationDelivery;
use uniterm_server::types::{PaneId, ProjectId};
use uniterm_server::waits::{
    answer_agent_wait, answer_output_wait, bound_output, output_lines, text_holds,
    PendingControlWait, WaitAnswer, MAX_OUTPUT_BYTES,
};

const IDLE_DWELL_MS: u64 = 700;

fn provenance() -> DetectionProvenance {
    DetectionProvenance::direct(DetectionSource::Screen, 5, None)
}

fn empty_pane() -> AgentPane {
    AgentPane {
        agent: None,
        foreground_pid: Some(70),
        candidate: None,
        last_detection: None,
        launch_args: None,
        last_evidence_hash: 0,
        last_dev_server_hash: 0,
    }
}

fn agent_pane(status: AgentStatus, authority: DetectionAuthority) -> AgentPane {
    AgentPane {
        agent: Some(PaneAgent {
            id: "codex".into(),
            status,
            authority,
            evidence: "seen".into(),
            provenance: provenance(),
            foreground_pid: Some(70),
            started_at: 1,
            session_id: None,
            resume_command: None,
        }),
        ..empty_pane()
    }
}

fn verdict(status: AgentStatus, authority: DetectionAuthority) -> Verdict {
    Verdict {
        foreground_pid: Some(70),
        agent: Some("codex".into()),
        status: Some(status),
        authority,
        evidence: "rule".into(),
        provenance: provenance(),
    }
}

fn workspace() -> Workspace {
    Workspace {
        windows: vec![
            Win {
                project: ProjectId(1),
                layout: LayoutNode::Leaf(PaneId(9)),
                active: PaneId(9),
                zoomed: None,
                name: None,
            },
            Win {
                project: ProjectId(1),
                layout: LayoutNode::Leaf(PaneId(2)),
                active: PaneId(2),
                zoomed: None,
                name: Some("api".into()),
            },
        ],
        active_window: 0,
        last_active_pane: None,
        projects: vec![Project {
            id: ProjectId(1),
            name: "web".into(),
            root: "/work/web".into(),
            active_pane: None,
        }],
        active_project: ProjectId(1),
        next_project_id: 2,
        project_scroll: 0,
        tab_scroll: 0,
        tab_scroll_follow_active: false,
        overview: None,
    }
}

#[test]
fn a_screen_verdict_binds_an_agent_and_waits_for_its_dwell() {
    let mut pane = empty_pane();
    let effect = pane.apply_agent_detection(
        verdict(AgentStatus::Working, DetectionAuthority::Grid),
        1_000,
        IDLE_DWELL_MS,
    );
    assert!(effect.bound);
    assert_eq!(pane.current_status(), AgentStatus::Working);
    pane.apply_agent_detection(
        verdict(AgentStatus::Idle, DetectionAuthority::Grid),
        2_000,
        IDLE_DWELL_MS,
    );
    assert_eq!(pane.current_status(), AgentStatus::Working);
    let due = pane.detection_deadline().unwrap();
    assert_eq!(due, 2_700);
    assert!(pane.flush_detection_due(due - 1).transition.is_none());
    assert_eq!(pane.current_status(), AgentStatus::Working);
    let settled = pane.flush_detection_due(due);
    assert_eq!(settled.transition.unwrap().status, AgentStatus::Idle);
    assert_eq!(pane.current_status(), AgentStatus::Idle);
}

#[test]
fn a_weaker_verdict_does_not_touch_a_cooperative_state() {
    let mut pane = agent_pane(AgentStatus::Idle, DetectionAuthority::Osc777);
    let effect = pane.apply_agent_detection(
        verdict(AgentStatus::Working, DetectionAuthority::Grid),
        1_000,
        IDLE_DWELL_MS,
    );
    assert!(!effect.changed);
    assert_eq!(pane.current_status(), AgentStatus::Idle);
}

#[test]
fn an_agent_that_ends_leaves_a_record() {
    let mut pane = agent_pane(AgentStatus::Working, DetectionAuthority::Osc777);
    assert!(pane.on_process_exit(70, 99));
    assert!(pane.agent.is_none());
    let last = pane.last_detection.unwrap();
    assert_eq!(last.status, AgentStatus::Exited);
    assert_eq!(last.evidence.text(), "kernel reported process 70 exit");
    let mut none = empty_pane();
    assert!(!none.on_process_exit(70, 99));
}

#[test]
fn a_cooperative_report_binds_and_unbinds() {
    let mut pane = empty_pane();
    let event = |status| AgentEvent {
        agent: Some("codex".into()),
        status: Some(status),
        cooperative_ready: false,
        session_id: None,
        resume_command: None,
    };
    let effect = pane.apply_agent_event(event(AgentStatus::Working), Some(70), 1, 2);
    assert!(effect.bound);
    let effect = pane.apply_agent_event(event(AgentStatus::Exited), Some(70), 3, 4);
    assert!(effect.unbound);
    assert!(pane.agent.is_none());
    pane.bind_agent("aider", Some(71), 5, 6);
    assert_eq!(pane.agent.unwrap().id, "aider");
}

#[test]
fn repeated_evidence_is_recognized() {
    assert_eq!(evidence_hash(""), 0xcbf2_9ce4_8422_2325);
    assert_eq!(evidence_hash("a"), 0xaf63_dc4c_8601_ec8c);
    let mut pane = empty_pane();
    let first = pane.note_output(Some(70), "tail", "title", "dev");
    assert!(first.evidence);
    let again = pane.note_output(Some(70), "tail", "title", "dev");
    assert!(!again.evidence);
    assert!(!again.dev_server);
}

#[test]
fn output_marks_the_workspace_dirty_and_an_end_closes_the_pane() {
    let quiet = PtyTurn {
        got_output: false,
        eof: false,
        budget_spent: false,
        cwd_changed: false,
        cooperative_ready: false,
        ended: false,
        agent_changed: false,
        process_changed: false,
        nested_changed: false,
        focused: true,
    };
    assert_eq!(plan_pty_turn(quiet).checkpoint, Checkpoint::Nothing);
    let output = PtyTurn {
        got_output: true,
        budget_spent: true,
        ..quiet
    };
    let plan = plan_pty_turn(output);
    assert_eq!(plan.checkpoint, Checkpoint::Later);
    assert!(plan.paint_output && plan.defer_read && !plan.close);
    let end = PtyTurn {
        got_output: true,
        eof: true,
        ..quiet
    };
    assert!(plan_pty_turn(end).close);
}

#[test]
fn only_lasting_changes_are_told() {
    let mut all = Notifications::new();
    let tell = |all: &mut Notifications, status, delivery| {
        all.notify_agent_transition(
            PaneId(1),
            AgentStatus::Working,
            status,
            true,
            delivery,
            1_000,
        )
    };
    tell(&mut all, AgentStatus::Permission, NotificationDelivery::Uniterm);
    tell(&mut all, AgentStatus::Idle, NotificationDelivery::Uniterm);
    assert_eq!(all.pending.len(), 1);
    assert!(all.take_due(1_999).is_empty());
    let due = all.take_due(2_000);
    assert_eq!(due[0].status, AgentStatus::Idle);
    assert!(still_current(&due[0], Some(AgentStatus::Idle)));
    assert!(!still_current(&due[0], Some(AgentStatus::Working)));
    assert!(!still_current(&due[0], None));
    tell(&mut all, AgentStatus::Idle, NotificationDelivery::Off);
    assert!(all.pending.is_empty());
    tell(&mut all, AgentStatus::Idle, NotificationDelivery::Terminal);
    all.silence();
    assert!(all.pending.is_empty());
}

#[test]
fn a_notice_names_the_agent_and_its_place() {
    let w = workspace();
    let agent = ChangedAgent {
        pane: PaneId(2),
        name: "Codex".into(),
        label: "permission".into(),
        previous: AgentStatus::Working,
        status: AgentStatus::Permission,
    };
    let (chime, notice) =
        w.deliver_agent_notification("work", &agent, NotificationDelivery::Uniterm, true, 1_000);
    let chime = chime.unwrap();
    assert_eq!(chime.kind, ChimeKind::Attention);
    assert!(!chime.pane_active);
    let mut shown = match notice {
        Notice::Toast(toast) => Some(toast),
        _ => None,
    };
    let toast = shown.as_ref().unwrap();
    assert_eq!(toast.title, "Codex needs input");
    assert_eq!(toast.body, "permission in web / Tab 2");
    assert_eq!(toast.expires, 9_000);
    assert!(!expire_toast(&mut shown, 8_999));
    assert!(expire_toast(&mut shown, 9_000));
    assert!(shown.is_none());
    let done = ChangedAgent {
        pane: PaneId(77),
        status: AgentStatus::Idle,
        ..agent
    };
    let (chime, notice) =
        w.deliver_agent_notification("work", &done, NotificationDelivery::Terminal, false, 0);
    assert!(chime.is_none());
    assert!(matches!(notice, Notice::Terminal(t) if t == "\x1b]9;Codex finished: work\x07"));
    assert_eq!(
        terminal_notice("a\x1b", "b\n\x07"),
        "\x1b]9;a : b  \x07"
    );
    assert_eq!(w.show_guardrail_toast("limit", 5).title, "Guardrail");
}

#[test]
fn instructions_wait_for_the_process_that_they_are_meant_for() {
    let live = vec![LiveInvocation {
        pane: PaneId(2),
        pid: Some(70),
    }];
    let gone = vec![LiveInvocation {
        pane: PaneId(2),
        pid: Some(71),
    }];
    let mut queue = InstructionQueue::new(5, 2);
    let add = |text: &str| InstructionCommand::Add {
        pane: PaneId(2),
        author: InstructionAuthor::Human,
        text: text.into(),
    };
    let first = queue.instruction_command(add(" go "), &live, true, 1);
    assert!(first.accepted);
    assert_eq!(queue.items[0].text, " go ");
    assert!(!queue.instruction_command(add("  "), &live, true, 2).accepted);
    assert!(!queue.instruction_command(add("too long"), &live, true, 2).accepted);
    assert!(!queue.instruction_command(add("x"), &live, false, 2).accepted);
    assert!(queue.instruction_command(add("b"), &live, true, 2).accepted);
    assert!(!queue.instruction_command(add("c"), &live, true, 3).accepted);
    assert_eq!(queue.next_for(PaneId(2), 70), Some(first.id));
    assert!(matches!(
        queue.begin_handover(first.id, &live),
        Handover::Ready { text, .. } if text == " go "
    ));
    assert!(queue.finish_handover(first.id, true).accepted);
    assert_eq!(queue.items.len(), 1);
    let next = queue.items[0].id;
    assert!(matches!(
        queue.begin_handover(next, &gone),
        Handover::Ended
    ));
    assert!(matches!(
        queue.begin_handover(999, &live),
        Handover::Missing
    ));
    let late = queue.instruction_command(add("d"), &live, true, 4).id;
    assert!(matches!(
        queue.send_now(late, &live, false),
        Sending::Refused { found: true }
    ));
    assert!(matches!(
        queue.send_now(999, &live, true),
        Sending::Begun(Handover::Missing)
    ));
    assert!(matches!(
        queue.send_now(late, &live, true),
        Sending::Begun(Handover::Ready { text, .. }) if text == "d"
    ));
    let quiet = queue.deliver_cooperative_instruction(PaneId(2), &gone, false);
    assert!(quiet.next.is_none() && quiet.dropped.is_empty());
    let turn = queue.deliver_cooperative_instruction(PaneId(2), &live, true);
    assert!(turn.dropped.is_empty());
    let next = turn.next.unwrap();
    assert_eq!((next.id, next.text.as_str()), (late, "d"));
    let mut other = InstructionQueue::new(5, 2);
    other.instruction_command(add("x"), &live, true, 1);
    let turn = other.deliver_cooperative_instruction(PaneId(2), &gone, true);
    assert_eq!(turn.dropped.len(), 1);
    assert!(turn.next.is_none() && other.items.is_empty());
    assert_eq!(queue.cancel_stale_instructions(PaneId(2), Some(71)).len(), 1);
    assert!(queue.cancel_pane_instructions(PaneId(2)).is_empty());
    assert_eq!(instruction_invocation(Some(1), Some(2)), None);
    assert_eq!(instruction_invocation(Some(1), None), Some(1));
    assert_eq!(instruction_invocation(None, Some(2)), Some(2));
}

#[test]
fn waits_end_with_an_answer() {
    assert!(text_holds("abcd", "bc"));
    assert!(!text_holds("abcd", "cb"));
    assert_eq!(
        answer_output_wait(Some("abc"), "b", 10, 99),
        WaitAnswer::Matched
    );
    assert_eq!(
        answer_output_wait(Some("abc"), "x", 10, 9),
        WaitAnswer::Later
    );
    assert_eq!(
        answer_output_wait(Some("abc"), "x", 10, 10),
        WaitAnswer::TimedOut
    );
    assert_eq!(answer_output_wait(None, "x", 10, 9), WaitAnswer::Gone);
    assert_eq!(
        answer_agent_wait(true, Some(AgentStatus::Idle), AgentStatus::Idle, 10, 99),
        WaitAnswer::Matched
    );
    assert_eq!(
        answer_agent_wait(false, None, AgentStatus::Idle, 10, 9),
        WaitAnswer::Gone
    );
    let wait = PendingControlWait::for_output(PaneId(1), "x", 500, 1_000);
    assert_eq!(wait.deadline(), 1_500);
    let long = PendingControlWait::for_agent(PaneId(1), AgentStatus::Idle, u64::MAX, 1_000);
    assert_eq!(long.deadline(), 3_601_000);
    assert_eq!(output_lines(5_000), 2_000);
    let mut text = "é".repeat(MAX_OUTPUT_BYTES);
    assert!(bound_output(&mut text));
    assert!(text.len() <= MAX_OUTPUT_BYTES);
}

#[test]
fn words_survive_the_shell() {
    assert_eq!(shell_quote("it's"), "'it'\\''s'");
    assert_eq!(shell_join(&vec!["a".into(), "b c".into()]), "'a' 'b c'");
    let choice = choose_restored_cwd(&Some("/gone".into()), &Some("/root".into()));
    assert_eq!(choice.cwd.as_deref(), Some("/gone"));
    assert!(choice.retry_at_root);
}

#[test]
fn web_servers_are_tracked_listed_and_stopped() {
    let mut servers = DevServers::new();
    let found = |port: u16, label: &str| FoundServer {
        port,
        label: label.into(),
        url: format!("http://localhost:{port}"),
    };
    assert!(servers.detected(PaneId(2), vec![found(8080, "vite"), found(3000, "api")]));
    assert!(!servers.detected(PaneId(2), vec![found(8080, "vite")]));
    let w = workspace();
    let list = w.dev_server_snapshot(&servers.list, Some(ProjectId(1)));
    assert_eq!(list.len(), 2);
    assert_eq!(list[0].tab_name, "api");
    assert!(w
        .dev_server_snapshot(&servers.list, Some(ProjectId(5)))
        .is_empty());
    let mut server = DevServer {
        pane: PaneId(2),
        port: 8080,
        detected: 1,
        label: "vite".into(),
        url: "http://localhost:8080".into(),
        stopping: false,
    };
    assert!(matches!(
        uniterm_server::observatory::run_dev_server_action(&mut server, 1, ServerAction::Open, None),
        ServerStep::Open(url) if url == "http://localhost:8080"
    ));
    assert!(matches!(
        uniterm_server::observatory::run_dev_server_action(&mut server, 2, ServerAction::Open, None),
        ServerStep::Nothing
    ));
    assert!(servers.down(PaneId(2), 3000));
    assert!(!servers.down(PaneId(2), 3000));
    assert!(servers.pane_closed(PaneId(2)));
    assert!(servers.list.is_empty());
}

#[test]
fn detections_are_listed_by_pane() {
    let w = workspace();
    let panes = vec![
        KnownPane {
            id: PaneId(9),
            state: empty_pane(),
        },
        KnownPane {
            id: PaneId(2),
            state: agent_pane(AgentStatus::Working, DetectionAuthority::Log),
        },
        KnownPane {
            id: PaneId(50),
            state: empty_pane(),
        },
    ];
    let list = w.detection_snapshot(&panes, None);
    assert_eq!(list.len(), 2);
    assert_eq!(list[0].pane, PaneId(2));
    assert_eq!(list[0].agent.as_deref(), Some("codex"));
    assert_eq!(list[0].tab, 2);
    assert_eq!(list[1].pane, PaneId(9));
    assert_eq!(list[1].evidence, "no agent evidence observed");
    assert_eq!(w.detection_snapshot(&panes, Some(PaneId(9))).len(), 1);
    let fleet = w.fleet_snapshot(&vec![
        BoundAgent {
            pane: PaneId(9),
            id: "codex".into(),
            status: AgentStatus::Working,
        },
        BoundAgent {
            pane: PaneId(2),
            id: "aider".into(),
            status: AgentStatus::Question,
        },
    ]);
    assert_eq!(fleet[0].pane_id, PaneId(2));
    assert_eq!(fleet[1].pane_id, PaneId(9));
}
