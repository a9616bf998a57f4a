use uniterm_server::broadcast::{owes_final_frame, Cell, DamageStep, PaneOutput, Shown};
use uniterm_server::checkpoint::{
    arm_dirty_snapshot, next_deadline, poll_timeout, stale_waiting_items, CheckpointState,
    LiveInvocation, PollTimeout, WaitingItem, DIRTY_SNAPSHOT_CADENCE_MS,
};
use uniterm_server::clients::{
    reconcile_file_manager_runtime, ClientInfo, Clients, DirectOutcome, FileRuntime,
    PaneAttachRole, RepaintTarget,
};
use uniterm_server::messages::{coalesce_resizes, ClientMessage};
use uniterm_server::pane_io::{
    PaneInput, PendingReads, ReadOutcome, ReadStep, ReadTurn, MAX_CLIENTS,
    MAX_CLIENT_MESSAGES_PER_EVENT, PTY_IO_BUDGET,
};
use uniterm_server::queue::{ClientQueue, DrainAction, WriteOutcome, MAX_PENDING_INPUT};
use uniterm_server::reaper::{DrainStep, RetiringPty, EXIT_FALLBACK_BOUND_MS, TERM_GRACE_MS};
use uniterm_server::sources::{Route, Sources, AGENT_WAKER, FIRST_TOKEN, LISTENER};
use uniterm_server::turns::{AcceptStep, AcceptTurn, ClientTurn, DecodeOutcome, TurnEnd};
use uniterm_server::types::{PaneId, Rect, Token};

#[test]
fn continuous_output_does_not_postpone_the_first_dirty_checkpoint() {
    let now: u64 = 50_000;
    let first = arm_dirty_snapshot(None, now);
    assert_eq!(first, now + DIRTY_SNAPSHOT_CADENCE_MS);
    assert_eq!(arm_dirty_snapshot(Some(first), now + 1_000), first);
}

#[test]
fn a_batch_keeps_only_its_last_resize_and_preserves_other_order() {
    let mut msgs = vec![
        ClientMessage::Resize { cols: 10, rows: 5 },
        ClientMessage::Input(b"a".to_vec()),
        ClientMessage::Resize { cols: 20, rows: 6 },
        ClientMessage::Input(b"b".to_vec()),
        ClientMessage::Resize { cols: 30, rows: 7 },
    ];
    coalesce_resizes(&mut msgs);
    assert!(matches!(msgs[0], ClientMessage::Input(ref b) if b == b"a"));
    assert!(matches!(msgs[1], ClientMessage::Input(ref b) if b == b"b"));
    assert!(matches!(
        msgs[2],
        ClientMessage::Resize { cols: 30, rows: 7 }
    ));
    assert_eq!(msgs.len(), 3);
}

#[test]
fn a_lone_resize_and_a_resize_free_batch_are_untouched() {
    let mut lone = vec![
        ClientMessage::Input(b"a".to_vec()),
        ClientMessage::Resize { cols: 10, rows: 5 },
    ];
    coalesce_resizes(&mut lone);
    assert_eq!(lone.len(), 2);
    assert!(matches!(
        lone[1],
        ClientMessage::Resize { cols: 10, rows: 5 }
    ));
    let mut none = vec![ClientMessage::Input(b"a".to_vec())];
    coalesce_resizes(&mut none);
    assert_eq!(none.len(), 1);
    let mut empty: Vec<ClientMessage> = Vec::new();
    coalesce_resizes(&mut empty);
    assert!(empty.is_empty());
}

#[test]
fn a_closed_pane_is_torn_down_in_steps() {
    let now: u64 = 1_000;
    let mut retiring = RetiringPty::retire(now, true, true);
    assert!(retiring.kill_at.is_some());
    assert!(!retiring.child_exited);
    assert!(!retiring.kill_due(now + TERM_GRACE_MS - 1));
    retiring.kill_at = Some(now + 10_000);
    retiring.begin_drain();
    assert_eq!(
        retiring.drain(0, ReadOutcome::WouldBlock).0,
        DrainStep::Done
    );
    assert_eq!(retiring.next_reap_deadline(now), Some(now + 10_000));
    retiring.kill_at = Some(now);
    assert!(retiring.kill_due(now));
    retiring.on_killed(now, false);
    assert!(!retiring.finish(now, false));
    retiring.on_exit_report(true);
    assert!(retiring.finish(now, true));
    assert_eq!(retiring.kill_at, None);
}

#[test]
fn a_teardown_without_kernel_reports_is_tried_once_more() {
    let now: u64 = 5_000;
    let mut retiring = RetiringPty::retire(now, false, false);
    retiring.on_killed(now, false);
    assert_eq!(retiring.fallback_at, Some(now + EXIT_FALLBACK_BOUND_MS));
    assert!(!retiring.fallback_due(now));
    assert!(retiring.fallback_due(now + EXIT_FALLBACK_BOUND_MS));
}

#[test]
fn a_checkpoint_falls_due_once_and_never_after_a_stop() {
    let mut state = CheckpointState::new();
    assert!(!state.flush_snapshot_due(10_000));
    state.mark_snapshot_dirty(10_000);
    state.mark_snapshot_dirty(11_900);
    assert!(!state.flush_snapshot_due(11_999));
    assert!(state.flush_snapshot_due(12_000));
    assert!(state.persist());
    assert_eq!(state.deadline, None);
    state.freeze();
    state.mark_snapshot_dirty(20_000);
    assert!(!state.persist());
}

#[test]
fn the_loop_waits_for_the_earliest_deadline() {
    assert_eq!(next_deadline(&vec![None, Some(30), Some(20), None]), Some(20));
    assert_eq!(next_deadline(&vec![None, None]), None);
    assert_eq!(poll_timeout(true, false, Some(90), 10), PollTimeout::Now);
    assert_eq!(poll_timeout(false, true, None, 10), PollTimeout::Now);
    assert_eq!(
        poll_timeout(false, false, Some(90), 10),
        PollTimeout::Millis(80)
    );
    assert_eq!(
        poll_timeout(false, false, Some(5), 10),
        PollTimeout::Millis(0)
    );
    assert_eq!(poll_timeout(false, false, None, 10), PollTimeout::Forever);
}

#[test]
fn only_items_of_gone_processes_are_resolved() {
    let item = |id: u64, pane: u64, invocation: Option<i32>| WaitingItem {
        id,
        pane: PaneId(pane),
        invocation,
    };
    let live = vec![LiveInvocation {
        pane: PaneId(1),
        pid: Some(70),
    }];
    let items = vec![
        item(1, 1, Some(70)),
        item(2, 1, Some(71)),
        item(3, 2, Some(70)),
        item(4, 1, None),
    ];
    assert_eq!(stale_waiting_items(&items, &live), vec![2, 3, 4]);
}

#[test]
fn events_reach_the_source_that_they_come_from() {
    let mut sources = Sources::new();
    assert_eq!(sources.route(Token(LISTENER)), Route::Listener);
    assert_eq!(sources.route(Token(AGENT_WAKER)), Route::Runtime);
    let pane = sources.add_pane(PaneId(7));
    assert_eq!(pane, Token(FIRST_TOKEN));
    assert_eq!(sources.register_process_watch(PaneId(7), 41), Some(None));
    let watch = sources.draw();
    sources.watch_registered(watch, PaneId(7), 41);
    assert_eq!(sources.register_process_watch(PaneId(7), 41), None);
    let client = sources.let_in(0).unwrap();
    assert_eq!(sources.route(pane), Route::Pane(PaneId(7)));
    assert!(matches!(sources.route(watch), Route::Process(w) if w.pid == 41));
    assert_eq!(sources.route(client), Route::Client);

    let replaced = sources.register_process_watch(PaneId(7), 42).unwrap();
    assert_eq!(replaced.unwrap().token, watch);
    assert_eq!(sources.process_exited(watch), None);
    let other = sources.draw();
    sources.watch_registered(other, PaneId(7), 42);
    assert_eq!(sources.process_exited(other).unwrap().pid, 42);
    assert_eq!(sources.drop_pane(PaneId(7)), None);
    assert_eq!(sources.route(pane), Route::Client);
}

#[test]
fn a_full_server_turns_connections_away_and_an_accept_turn_is_bounded() {
    let mut sources = Sources::new();
    let mut turn = AcceptTurn::new();
    assert_eq!(
        turn.step(true, MAX_CLIENTS, &mut sources),
        AcceptStep::TurnAway
    );
    assert_eq!(sources.next_token, FIRST_TOKEN);
    assert_eq!(
        turn.step(true, 3, &mut sources),
        AcceptStep::Register(Token(FIRST_TOKEN))
    );
    assert_eq!(turn.step(false, 3, &mut sources), AcceptStep::Done);
    assert!(!turn.spent());
    while !turn.spent() {
        turn.step(true, 3, &mut sources);
    }
    assert_eq!(turn.accepted, 64);
}

#[test]
fn a_client_turn_is_bounded_and_ends_in_removal_for_nonsense() {
    let mut turn = ClientTurn::new(false);
    let mut taken: usize = 0;
    while turn.decoded(DecodeOutcome::Message) {
        taken += 1;
    }
    assert_eq!(taken + 1, MAX_CLIENT_MESSAGES_PER_EVENT);
    assert!(turn.remove);

    let mut bad = ClientTurn::new(false);
    assert!(bad.decoded(DecodeOutcome::Message));
    assert!(!bad.decoded(DecodeOutcome::Malformed));
    assert_eq!(bad.finish(false, false, true), TurnEnd::Remove);

    let mut fine = ClientTurn::new(false);
    fine.reads_ended(ReadStep::Spent);
    assert!(fine.reads_again(ReadStep::Spent));
    assert!(!fine.decoded(DecodeOutcome::Partial));
    assert_eq!(fine.finish(false, false, true), TurnEnd::Repaint);
    assert_eq!(fine.finish(false, false, false), TurnEnd::Keep);
    assert_eq!(fine.finish(true, false, true), TurnEnd::Remove);
    assert_eq!(fine.finish(false, true, false), TurnEnd::Remove);
    fine.reads_ended(ReadStep::Closed);
    assert!(fine.remove);
    assert!(!fine.reads_again(ReadStep::Spent));
    assert!(ClientTurn::new(true).remove);
}

#[test]
fn a_read_turn_stops_at_its_budget() {
    let mut turn = ReadTurn::new();
    assert_eq!(turn.step(ReadOutcome::Data(1)), ReadStep::Again);
    assert_eq!(turn.step(ReadOutcome::Interrupted), ReadStep::Again);
    assert_eq!(turn.step(ReadOutcome::WouldBlock), ReadStep::Drained);
    assert_eq!(turn.step(ReadOutcome::Eof), ReadStep::Closed);
    assert_eq!(turn.step(ReadOutcome::Failed), ReadStep::Closed);
    assert_eq!(
        turn.step(ReadOutcome::Data(PTY_IO_BUDGET)),
        ReadStep::Spent
    );
}

#[test]
fn reads_wait_while_the_runtime_is_backed_up() {
    let mut reads = PendingReads { tokens: Vec::new() };
    assert!(!reads.runtime_read_ready(Token(20), true, true));
    assert!(!reads.runtime_read_ready(Token(20), true, true));
    assert!(!reads.runtime_read_ready(Token(21), false, true));
    assert_eq!(reads.tokens, vec![Token(20)]);
    assert!(reads.service_pending_reads(true).is_empty());
    reads.defer(Token(22));
    assert_eq!(
        reads.service_pending_reads(false),
        vec![Token(20), Token(22)]
    );
    assert!(reads.tokens.is_empty());
    assert!(reads.runtime_read_ready(Token(20), true, false));
}

#[test]
fn pane_input_is_written_in_order_and_dropped_on_failure() {
    let mut input = PaneInput::new();
    assert!(input.queue(b"abc"));
    assert!(input.queue(b"def"));
    assert_eq!(input.unsent(), b"abcdef");
    assert!(input.accept_write(WriteOutcome::Wrote(4)));
    assert_eq!(input.unsent(), b"ef");
    assert!(input.accept_write(WriteOutcome::Interrupted));
    assert!(!input.accept_write(WriteOutcome::WouldBlock));
    assert!(input.wants_write());
    assert!(!input.accept_write(WriteOutcome::Failed));
    assert!(!input.wants_write());
    assert!(input.queue(&vec![0; MAX_PENDING_INPUT]));
    assert!(!input.queue(b"x"));
    assert_eq!(input.unsent().len(), MAX_PENDING_INPUT);
}

#[test]
fn a_drained_queue_shows_the_final_frame_before_the_repaint() {
    let mut queue = ClientQueue::new(1_000);
    queue.queue_render(b"frame");
    queue.queue_render(b"later");
    queue.stash_final_frame(b"last".to_vec());
    assert!(queue.owes_repaint());
    assert!(matches!(queue.after_drain(), DrainAction::Nothing));
    queue.accept_write(WriteOutcome::Wrote(5));
    assert!(matches!(queue.after_drain(), DrainAction::FinalFrame(f) if f == b"last"));
    assert!(matches!(queue.after_drain(), DrainAction::Repaint));
    assert!(matches!(queue.after_drain(), DrainAction::Nothing));
    queue.accept_write(WriteOutcome::Failed);
    assert!(queue.is_dead());
    queue.queue(b"more");
    assert!(queue.unsent().is_empty());
}

fn output(dirty: bool) -> PaneOutput {
    PaneOutput {
        covered: false,
        rect: Some(Rect::new(0, 1, 80, 23)),
        copying: false,
        dirty,
        scrolled: true,
        cursor: Some(Cell { col: 4, row: 5 }),
        cursor_visible: true,
    }
}

#[test]
fn nothing_is_painted_twice() {
    let mut shown = Shown::new();
    let step = shown.broadcast_pane_damage(output(true), 80);
    assert_eq!(
        step,
        DamageStep::Paint {
            rect: Rect::new(0, 1, 80, 23),
            scroll: true,
            set_visible: Some(true)
        }
    );
    assert_eq!(
        shown.broadcast_pane_damage(output(false), 80),
        DamageStep::Nothing
    );
    let moved = PaneOutput {
        cursor: Some(Cell { col: 5, row: 5 }),
        ..output(false)
    };
    assert!(matches!(
        shown.broadcast_pane_damage(moved, 100),
        DamageStep::Paint {
            scroll: false,
            set_visible: None,
            ..
        }
    ));
    let covered = PaneOutput {
        covered: true,
        ..output(true)
    };
    assert_eq!(
        shown.broadcast_pane_damage(covered, 80),
        DamageStep::Forget
    );
    let hidden = PaneOutput {
        rect: None,
        ..output(true)
    };
    assert_eq!(shown.broadcast_pane_damage(hidden, 80), DamageStep::Forget);
    let frozen = PaneOutput {
        copying: true,
        ..output(true)
    };
    assert_eq!(shown.broadcast_pane_damage(frozen, 80), DamageStep::Keep);
}

#[test]
fn a_title_is_sent_only_when_it_changed() {
    let mut shown = Shown::new();
    assert!(!shown.sync_window_titles(None));
    assert!(shown.sync_window_titles(Some("one".into())));
    assert!(!shown.sync_window_titles(Some("one".into())));
    assert!(shown.sync_window_titles(Some("two".into())));
    assert!(!shown.sync_window_titles(None));
    shown.full_repaint_client(true, None, false, Some("three".into()), false);
    assert_eq!(shown.title.as_deref(), Some("two"));
    shown.full_repaint_client(false, None, false, Some("three".into()), true);
    assert_eq!(shown.title.as_deref(), Some("three"));
    shown.full_repaint_all(true, Some(Cell { col: 1, row: 1 }), false, None);
    assert_eq!(shown.cursor, None);
    assert_eq!(shown.cursor_visible, Some(false));
    assert_eq!(shown.title, None);
}

#[test]
fn the_smallest_viewport_decides_and_one_client_drives_a_pane() {
    let mut clients = Clients::new(80, 24);
    clients.connect(Token(20));
    clients.connect(Token(21));
    clients.connect(Token(22));
    assert!(!clients.any_attached());
    assert!(clients.attach(Token(20), 120, 40));
    assert_eq!((clients.cols, clients.rows), (120, 40));
    assert!(clients.attach(Token(21), 100, 50));
    assert_eq!((clients.cols, clients.rows), (100, 40));
    assert_eq!(clients.attached_clients(), vec![Token(20), Token(21)]);
    clients.set_overlay(Token(21), true);
    assert_eq!(clients.frame_clients(), vec![Token(20)]);
    assert_eq!(
        clients.repaint_target(Token(20)),
        RepaintTarget::Workspace { sole: false }
    );

    let (first, _) = clients.attach_direct(Token(22), PaneId(3), true, PaneAttachRole::Controller);
    assert!(matches!(first, DirectOutcome::Attached { revoked } if revoked.is_empty()));
    assert_eq!(clients.pane_clients(PaneId(3)), vec![Token(22)]);
    assert_eq!(
        clients.repaint_target(Token(22)),
        RepaintTarget::Pane(PaneId(3))
    );
    let (second, _) = clients.attach_direct(Token(21), PaneId(3), true, PaneAttachRole::Controller);
    assert!(matches!(second, DirectOutcome::Contested));
    let (missing, _) = clients.attach_direct(Token(21), PaneId(9), false, PaneAttachRole::Observer);
    assert!(matches!(missing, DirectOutcome::Missing));
    let (taken, _) = clients.attach_direct(Token(21), PaneId(3), true, PaneAttachRole::Takeover);
    assert!(matches!(taken, DirectOutcome::Attached { revoked } if revoked == vec![Token(22)]));
    assert!(!clients.remove(Token(22)));
    assert_eq!(clients.position(Token(22)), None);
}

#[test]
fn file_work_runs_only_while_it_can_be_seen() {
    assert_eq!(
        reconcile_file_manager_runtime(true, true, false, true),
        FileRuntime::Start
    );
    assert_eq!(
        reconcile_file_manager_runtime(true, true, true, true),
        FileRuntime::Keep
    );
    assert_eq!(
        reconcile_file_manager_runtime(true, false, true, true),
        FileRuntime::Stop
    );
    assert_eq!(
        reconcile_file_manager_runtime(false, true, true, true),
        FileRuntime::Stop
    );
}

#[test]
fn a_final_frame_is_owed_only_to_slow_clients_of_the_workspace() {
    let mut client = ClientInfo::connected(Token(20), 80, 24);
    assert!(!owes_final_frame(client, true));
    client.attached = true;
    assert!(owes_final_frame(client, true));
    assert!(!owes_final_frame(client, false));
    client.dead = true;
    assert!(!owes_final_frame(client, true));
}
