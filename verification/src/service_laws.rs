//! What is queued, waited for and kept can rely on: each law speaks of every
//! outcome that the operation may have.
use crate::artifact::{ArtifactId, ObservationQueue};
use crate::checkpoint::{CheckpointState, LiveInvocation};
use crate::detection::AgentStatus;
use crate::instruction::{
    elsewhere, instruction_at, lemma_first_given_is_first_handed_over, still_meant, Instruction,
    InstructionQueue, Sending,
};
use crate::lists::lemma_filter_holds;
use crate::metadata::{clean_key, clean_value, set_metadata, MetadataStore};
use crate::notify::{
    notice_body, notice_due, notice_later, noteworthy, of_other_pane, Notifications,
    PendingNotification,
};
use crate::orchestration::{ActiveRun, OrchestrationKind, Orchestrations, PendingDelivery};
use crate::pane_events::{EventEffect, PtyTurn};
use crate::pane_io::ReadOutcome;
use crate::queue::{ClientQueue, DrainAction, WriteOutcome};
use crate::reaper::{DrainStep, RetiringPty};
use crate::run_flow::{delivered_elsewhere, run_of_task, DeliveryEffect, RunTimer};
use crate::server::Server;
use crate::settings::NotificationDelivery;
use crate::sources::Sources;
use crate::text::clip;
use crate::turns::{AcceptStep, AcceptTurn};
use crate::types::{PaneId, Token};
use crate::waits::{answer_output_wait, holds_text, PendingControlWait, WaitAnswer};
use vstd::prelude::*;

verus! {

/// A change of an agent replaces what was pending of its Pane, and is told a
/// second later where it calls for someone or, if so set, ends the work.
pub proof fn lemma_change_is_kept_to_be_told(
    queue: &mut Notifications,
    pane: PaneId,
    previous: AgentStatus,
    status: AgentStatus,
    completion: bool,
    delivery: NotificationDelivery,
    now: u64,
    other: PendingNotification,
)
    requires
        call_ensures(
            Notifications::notify_agent_transition,
            (queue, pane, previous, status, completion, delivery, now),
            (),
        ),
        now <= u64::MAX - 1_000,
    ensures
        other.pane != pane ==> (final(queue).pending@.contains(other)
            <==> old(queue).pending@.contains(other)),
        ({
            let calls = (status is Permission || status is Question) && !(previous is Permission
                || previous is Question);
            let ends = completion && status is Idle && (previous is Working || previous is Tool
                || previous is Starting);
            let told = !(delivery is Off) && (calls || ends);
            let last = final(queue).pending@.last();
            &&& told ==> {
                &&& final(queue).pending@.len() > 0
                &&& last.pane == pane && last.previous == previous && last.status == status
                &&& last.due == now + 1_000
            }
            &&& !told && other.pane == pane ==> !final(queue).pending@.contains(other)
        }),
{
    let kept = old(queue).pending@.filter(of_other_pane(pane));
    lemma_filter_holds(old(queue).pending@, of_other_pane(pane), other);
    if noteworthy(previous, status, completion, delivery) {
        let next = PendingNotification { pane, previous, status, due: (now + 1_000) as u64 };
        assert(kept.push(next).contains(other) <==> kept.contains(other) || other == next) by {
            if kept.contains(other) {
                let at = choose|at: int| 0 <= at < kept.len() && kept[at] == other;
                assert(kept.push(next)[at] == other);
            }
            if other == next {
                assert(kept.push(next)[kept.len() as int] == other);
            }
        }
    }
}

/// What is due is taken, and what is not stays.
pub proof fn lemma_due_notices_are_taken(
    queue: &mut Notifications,
    now: u64,
    due: Vec<PendingNotification>,
    n: PendingNotification,
)
    requires
        call_ensures(Notifications::take_due, (queue, now), due),
    ensures
        due@.contains(n) <==> old(queue).pending@.contains(n) && n.due <= now,
        final(queue).pending@.contains(n) <==> old(queue).pending@.contains(n) && n.due > now,
{
    lemma_filter_holds(old(queue).pending@, notice_due(now), n);
    lemma_filter_holds(old(queue).pending@, notice_later(now), n);
}

/// The body of a word says where the agent is, after what it waits for.
pub proof fn lemma_body_says_where(
    label: &str,
    location: String,
    previous: AgentStatus,
    status: AgentStatus,
    body: String,
)
    requires
        call_ensures(notice_body, (label, location, previous, status), body),
    ensures
        (status is Permission || status is Question) && !(previous is Permission
            || previous is Question)
            ==> body@ == label@ + " in "@ + location@,
        !(status is Permission || status is Question) ==> body@ == location@,
{
}

/// A slow client gets no second frame behind one that waits: it is painted anew
/// once it has caught up.
pub proof fn lemma_frame_is_queued_once(queue: &mut ClientQueue, bytes: &[u8], shut: bool)
    requires
        call_ensures(ClientQueue::queue_render, (queue, bytes), shut),
    ensures
        old(queue)@.dead ==> final(queue)@ == old(queue)@ && !shut,
        !old(queue)@.dead && old(queue)@.render is Some ==> final(queue)@.pending
            == old(queue)@.pending
            && final(queue)@.repaint_pending && !shut,
        !old(queue)@.dead && old(queue)@.render is None && !final(queue)@.dead
            ==> final(queue)@.pending == old(queue)@.pending + bytes@ && final(queue)@.render
            == Some(
            final(queue)@.pending.len() as int,
        ),
        shut <==> final(queue)@.dead && !old(queue)@.dead,
{
}

/// What was written leaves the queue from its front; a client that takes nothing
/// or fails is given up.
pub proof fn lemma_written_bytes_leave_the_queue(
    queue: &mut ClientQueue,
    outcome: WriteOutcome,
    again: bool,
)
    requires
        call_ensures(ClientQueue::accept_write, (queue, outcome), again),
    ensures
        outcome is Failed || outcome == WriteOutcome::Wrote(0) ==> final(queue)@.dead && !again,
        outcome is Wrote && 0 < outcome->Wrote_0 ==> final(queue)@.pending
            == old(queue)@.pending.skip(outcome->Wrote_0 as int),
        outcome is WouldBlock ==> final(queue)@.pending == old(queue)@.pending && !again,
        outcome is Interrupted ==> final(queue)@ == old(queue)@,
        again ==> final(queue)@.pending.len() > 0 && !final(queue)@.dead,
{
}

/// A drained client is sent the last frame it is owed, else painted where that was
/// collapsed, else nothing.
pub proof fn lemma_drained_client_is_caught_up(queue: &mut ClientQueue, action: DrainAction)
    requires
        call_ensures(ClientQueue::after_drain, (queue,), action),
    ensures
        ({
            let idle = !old(queue)@.dead && old(queue)@.pending.len() == 0;
            &&& action is FinalFrame <==> idle && old(queue)@.final_frame is Some
            &&& action is Repaint <==> idle && old(queue)@.final_frame is None
                && old(queue)@.repaint_pending
            &&& action is FinalFrame ==> action->FinalFrame_0@ == old(queue)@.final_frame->0
                && final(queue)@.final_frame is None
            &&& action is Repaint ==> !final(queue)@.repaint_pending
            &&& action is Nothing ==> final(queue)@ == old(queue)@
        }),
{
}

/// Who waits for output waits from a millisecond to an hour, for at most 4,096
/// characters.
pub proof fn lemma_wait_for_output(
    pane: PaneId,
    needle: &str,
    timeout: u64,
    now: u64,
    wait: PendingControlWait,
)
    requires
        call_ensures(PendingControlWait::for_output, (pane, needle, timeout, now), wait),
        now <= u64::MAX - 3_600_000,
    ensures
        wait is Output && wait->Output_pane == pane,
        needle@.len() <= 4_096 ==> wait->needle@ == needle@,
        needle@.len() > 4_096 ==> wait->needle@ == needle@.take(4_096),
        1 <= timeout <= 3_600_000 ==> wait->Output_deadline == now + timeout,
        timeout == 0 ==> wait->Output_deadline == now + 1,
        timeout > 3_600_000 ==> wait->Output_deadline == now + 3_600_000,
{
}

/// Who waits for an agent waits for that status in that Pane, as long.
pub proof fn lemma_wait_for_an_agent(
    pane: PaneId,
    status: AgentStatus,
    timeout: u64,
    now: u64,
    wait: PendingControlWait,
)
    requires
        call_ensures(PendingControlWait::for_agent, (pane, status, timeout, now), wait),
        now <= u64::MAX - 3_600_000,
    ensures
        wait is Agent && wait->Agent_pane == pane && wait->status == status,
        1 <= timeout <= 3_600_000 ==> wait->Agent_deadline == now + timeout,
        timeout == 0 ==> wait->Agent_deadline == now + 1,
        timeout > 3_600_000 ==> wait->Agent_deadline == now + 3_600_000,
{
}

/// Who waits for output is answered when the Pane is gone, the text stands in it,
/// or the time is over, in this order.
pub proof fn lemma_wait_for_output_is_answered(
    output: Option<&str>,
    needle: &str,
    deadline: u64,
    now: u64,
    answer: WaitAnswer,
)
    requires
        call_ensures(answer_output_wait, (output, needle, deadline, now), answer),
    ensures
        answer is Gone <==> output is None,
        answer is Matched <==> output is Some && holds_text(output->0@, needle@),
        answer is TimedOut <==> output is Some && !holds_text(output->0@, needle@)
            && now >= deadline,
{
}

/// A prompt that was taken starts the turn; one that was refused is offered again,
/// three times in all; after that a human is asked.
pub proof fn lemma_prompt_is_settled(
    runs: &mut Orchestrations,
    delivery: PendingDelivery,
    accepted: bool,
    now: u64,
    effect: DeliveryEffect,
)
    requires
        call_ensures(Orchestrations::settle_delivery, (runs, delivery, accepted, now), effect),
    ensures
        effect is Delivered <==> accepted,
        effect is Retrying <==> !accepted && delivery.attempts < 2,
        effect is Failed <==> !accepted && delivery.attempts >= 2,
        effect is Delivered ==> effect->Delivered_pane == delivery.pane && effect->Delivered_kind
            == delivery.kind,
        effect is Delivered ==> (effect->bind is Some <==> delivery.first_delivery),
        effect is Failed ==> effect->Failed_pane == delivery.pane && *final(runs) == *old(runs),
        effect is Retrying ==> final(runs).deliveries@.last().attempts == delivery.attempts + 1
            && final(runs).deliveries@.last().token == delivery.token
            && final(runs).deliveries@.last().pane == delivery.pane,
        effect is Retrying ==> final(runs).workflows == old(runs).workflows && final(runs).relays
            == old(runs).relays,
{
}

/// A run that is taken out is the one of its task, and the others stay.
pub proof fn lemma_run_is_taken_out(
    runs: &mut Orchestrations,
    kind: OrchestrationKind,
    task: u64,
    run: Option<ActiveRun>,
    i: int,
)
    requires
        call_ensures(Orchestrations::take_run, (runs, kind, task), run),
    ensures
        run_of_task(old(runs).runs(kind), task, 0) is None ==> run is None && *final(runs)
            == *old(runs),
        run_of_task(old(runs).runs(kind), task, 0) == Some(i) ==> run
            == Some(old(runs).runs(kind)[i]),
        kind is Workflow ==> final(runs).relays == old(runs).relays,
        kind is Relay ==> final(runs).workflows == old(runs).workflows,
        final(runs).deliveries == old(runs).deliveries && final(runs).submissions
            == old(runs).submissions,
{
}

/// A run that is put back is listed with those of its kind, after them.
pub proof fn lemma_run_is_put_back(runs: &mut Orchestrations, run: ActiveRun)
    requires
        call_ensures(Orchestrations::return_run, (runs, run), ()),
    ensures
        final(runs).runs(run.kind).last() == run,
        final(runs).runs(run.kind).drop_last() == old(runs).runs(run.kind),
        run.kind is Workflow ==> final(runs).relays == old(runs).relays,
        run.kind is Relay ==> final(runs).workflows == old(runs).workflows,
{
    assert(old(runs).runs(run.kind).push(run).drop_last() =~= old(runs).runs(run.kind));
}

/// A timer that passed is off, and with the time limit or the idle time the
/// silence timer too; only the time limit sets off its guard.
pub proof fn lemma_passed_timer_is_noted(run: &mut ActiveRun, timer: RunTimer)
    requires
        call_ensures(ActiveRun::begin_timer, (run, timer), ()),
    ensures
        final(run).stall_deadline is None,
        timer is Stall ==> final(run).idle_deadline == old(run).idle_deadline
            && final(run).elapsed_deadline == old(run).elapsed_deadline,
        timer is Idle ==> final(run).idle_deadline is None && final(run).elapsed_deadline
            == old(run).elapsed_deadline,
        timer is Elapsed ==> final(run).elapsed_deadline is None
            && final(run).elapsed_guard_triggered,
        !(timer is Elapsed) ==> final(run).elapsed_guard_triggered
            == old(run).elapsed_guard_triggered,
        final(run).state == old(run).state && final(run).roles == old(run).roles,
{
}

/// A run is over once done or aborted, and can go on while its turn is open or it
/// is paused.
pub proof fn lemma_run_is_over_or_goes_on(run: ActiveRun, over: bool, live: bool)
    requires
        call_ensures(ActiveRun::over, (&run,), over),
        call_ensures(ActiveRun::live, (&run,), live),
    ensures
        over <==> run.state.phase is Done || run.state.phase is Aborted,
        live <==> run.state.phase is Awaiting || run.state.phase is Paused,
{
}

/// A prompt for a Pane that is gone is dropped, and no other.
pub proof fn lemma_prompts_are_dropped(runs: &mut Orchestrations, pane: PaneId, d: PendingDelivery)
    requires
        call_ensures(Orchestrations::drop_deliveries, (runs, pane), ()),
    ensures
        final(runs).deliveries@.contains(d) <==> old(runs).deliveries@.contains(d)
            && d.pane != pane,
        final(runs).workflows == old(runs).workflows && final(runs).relays == old(runs).relays,
{
    lemma_filter_holds(old(runs).deliveries@, delivered_elsewhere(pane), d);
}

/// The agent's next instruction is the first that waits for its process.
pub proof fn lemma_next_instruction(
    queue: InstructionQueue,
    pane: PaneId,
    pid: i32,
    id: Option<u64>,
)
    requires
        call_ensures(InstructionQueue::next_for, (&queue, pane, pid), id),
    ensures
        id is Some ==> exists|k: int|
            {
                &&& 0 <= k < queue.items@.len()
                &&& (#[trigger] queue.items@[k]).id == id->0
                &&& queue.items@[k].pane == pane
                &&& queue.items@[k].invocation == pid
            },
        id is None ==> forall|k: int|
            0 <= k < queue.items@.len() ==> !((#[trigger] queue.items@[k]).pane == pane
                && queue.items@[k].invocation == pid),
{
    lemma_first_given_is_first_handed_over(queue, pane, pid);
}

/// Instructions for another process than the one that runs are dropped, and no
/// others.
pub proof fn lemma_stale_instructions_are_dropped(
    queue: &mut InstructionQueue,
    pane: PaneId,
    pid: Option<i32>,
    ids: Vec<u64>,
    item: Instruction,
)
    requires
        call_ensures(InstructionQueue::cancel_stale_instructions, (queue, pane, pid), ids),
    ensures
        final(queue).items@.contains(item) <==> old(queue).items@.contains(item)
            && (item.pane != pane
            || pid == Some(item.invocation)),
        final(queue).next_id == old(queue).next_id,
{
    lemma_filter_holds(old(queue).items@, still_meant(pane, pid), item);
}

/// Instructions for a Pane that closed are dropped, and no others.
pub proof fn lemma_instructions_of_a_closed_pane(
    queue: &mut InstructionQueue,
    pane: PaneId,
    ids: Vec<u64>,
    item: Instruction,
)
    requires
        call_ensures(InstructionQueue::cancel_pane_instructions, (queue, pane), ids),
    ensures
        final(queue).items@.contains(item) <==> old(queue).items@.contains(item)
            && item.pane != pane,
        final(queue).next_id == old(queue).next_id,
{
    lemma_filter_holds(old(queue).items@, elsewhere(pane), item);
}

/// Where events cannot be written down, no instruction is sent.
pub proof fn lemma_nothing_is_sent_unrecorded(
    queue: &mut InstructionQueue,
    id: u64,
    live: Vec<LiveInvocation>,
    durable: bool,
    sending: Sending,
)
    requires
        call_ensures(InstructionQueue::send_now, (queue, id, &live, durable), sending),
    ensures
        sending is Begun <==> durable,
        !durable ==> *final(queue) == *old(queue),
        !durable ==> (sending->found <==> instruction_at(old(queue).items@, id, 0) is Some),
{
}

/// Text is clipped to its first characters.
pub proof fn lemma_text_is_clipped(text: &str, max: usize, out: String)
    requires
        call_ensures(clip, (text, max), out),
    ensures
        text@.len() <= max ==> out@ == text@,
        text@.len() > max ==> out@ == text@.take(max as int),
{
}

/// A file is looked at once at a time; what changes meanwhile is looked at again.
pub proof fn lemma_file_is_looked_at(queue: &mut ObservationQueue, id: ArtifactId, send: bool)
    requires
        call_ensures(ObservationQueue::request, (queue, id), send),
    ensures
        send <==> !old(queue).pending@.contains(id),
        final(queue).pending@.contains(id),
        !send ==> final(queue).dirty@.contains(id),
{
    if send {
        assert(final(queue).pending@[old(queue).pending@.len() as int] == id);
    } else if !old(queue).dirty@.contains(id) {
        assert(final(queue).dirty@[old(queue).dirty@.len() as int] == id);
    }
}

/// A file that was looked at waits no longer, and is looked at again where it
/// changed meanwhile.
pub proof fn lemma_file_was_looked_at(queue: &mut ObservationQueue, id: ArtifactId, again: bool)
    requires
        call_ensures(ObservationQueue::finished, (queue, id), again),
    ensures
        again <==> old(queue).dirty@.contains(id),
        !final(queue).pending@.contains(id),
{
}

/// A note is set under its clean key; a blank value takes it away, and a key with
/// nothing clean in it writes nothing.
pub proof fn lemma_note_is_set(
    store: &mut MetadataStore,
    owner: u64,
    key: &str,
    value: &str,
    ttl: Option<u64>,
    now: u64,
    written: bool,
)
    requires
        call_ensures(set_metadata, (store, owner, key, value, ttl, now), written),
    ensures
        clean_key(key@).len() == 0 ==> !written && final(store)@ == old(store)@,
        clean_key(key@).len() > 0 && clean_value(value@).len() == 0 ==> written
            && !final(store)@.dom().contains((owner, clean_key(key@))),
        clean_key(key@).len() > 0 && clean_value(value@).len() > 0 ==> written
            && final(store)@.dom().contains((owner, clean_key(key@)))
            && final(store)@[(owner, clean_key(key@))].value
            == clean_value(value@),
{
}

/// Notes go with their owner, and no others.
pub proof fn lemma_notes_go_with_their_owner(
    store: &mut MetadataStore,
    owner: u64,
    slot: (u64, Seq<char>),
)
    requires
        call_ensures(MetadataStore::remove_owner, (store, owner), ()),
    ensures
        final(store)@.dom().contains(slot) <==> old(store)@.dom().contains(slot) && slot.0 != owner,
{
}

/// A change is written down within two seconds of the first that was not.
pub proof fn lemma_change_is_written_in_time(state: &mut CheckpointState, now: u64)
    requires
        call_ensures(CheckpointState::mark_snapshot_dirty, (state, now), ()),
        now <= u64::MAX - 2_000,
    ensures
        old(state).deadline is None ==> final(state).deadline is Some
            && final(state).deadline->0 == now
            + 2_000,
        old(state).deadline is Some ==> final(state).deadline == old(state).deadline,
        final(state).writes_enabled == old(state).writes_enabled,
{
}

/// A teardown reads on while there is more, leaves the rest for later at its bound,
/// and watches a closed master no longer.
pub proof fn lemma_teardown_reads_on(
    pty: &mut RetiringPty,
    total: usize,
    outcome: ReadOutcome,
    next: (DrainStep, usize),
)
    requires
        call_ensures(RetiringPty::drain, (pty, total, outcome), next),
    ensures
        outcome is Data ==> next.1 == total + outcome->Data_0 && (next.0 is Again <==> total
            + outcome->Data_0 < 65_536),
        outcome is Data && total + outcome->Data_0 >= 65_536 ==> final(pty).read_pending,
        outcome is Interrupted ==> next.0 is Again && next.1 == total,
        outcome is WouldBlock ==> next.0 is Done && *final(pty) == *old(pty),
        outcome is Eof || outcome is Failed ==> next.0 is Done && !final(pty).master_registered,
{
}

/// A connection is registered under a fresh token, or turned away where the server
/// is full; both count.
pub proof fn lemma_connections_are_counted(
    turn: &mut AcceptTurn,
    connected: bool,
    clients: usize,
    sources: &mut Sources,
    next: AcceptStep,
)
    requires
        call_ensures(AcceptTurn::step, (turn, connected, clients, sources), next),
    ensures
        next is Done <==> !connected,
        next is TurnAway <==> connected && clients >= 128,
        next is Register ==> next->Register_0 == Token(old(sources).next_token),
        connected ==> final(turn).accepted == old(turn).accepted + 1,
        !connected ==> final(turn).accepted == old(turn).accepted,
{
}

/// What one report did is added to what the turn has gathered.
pub proof fn lemma_reports_add_up(turn: &mut PtyTurn, ready: bool, effect: EventEffect)
    requires
        call_ensures(PtyTurn::absorb, (turn, ready, effect), ()),
    ensures
        final(turn).cooperative_ready <==> old(turn).cooperative_ready || ready,
        final(turn).ended <==> old(turn).ended || effect.ended,
        final(turn).agent_changed <==> old(turn).agent_changed || effect.changed,
{
}

/// The lists come back as wide as they were.
pub proof fn lemma_preferences_come_back(server: &mut Server, agents: bool, servers: bool)
    requires
        call_ensures(Server::restore_workspace_preferences, (server, agents, servers), ()),
    ensures
        final(server).agent_scope is Workspace <==> agents,
        final(server).server_scope is Workspace <==> servers,
        final(server).session == old(server).session && final(server).runtime
            == old(server).runtime,
{
}

} // verus!
