//! What live runs can rely on: prompts and their retries, timers, resumed turns,
//! and runs that lose a Pane.
use crate::lists::lemma_filter_holds;
use crate::orchestration::{
    deliveries_due, idle_reconciled, orchestration_due, runs_due, submissions_due, token_step,
    ActiveRun, Action, Orchestrations, PendingDelivery, PendingRelayActivation, PendingSubmission,
};
use crate::run_actions::{ended_title, paste, relay_prompt_text, role_prompted, run_end};
use crate::run_flow::{
    activation_not_among, awaiting_in, canceled, check_lapsed, check_later, delivered_elsewhere,
    delivery_later, delivery_ready, idle_blocked, not_among, of_other_turn, rearmed, resumable_in,
    resumption, retry_delay, run_of_task, stall_armed, taken, task_prompted, tasks_due, RunTimer,
};
use crate::run_timers::{asked, EngineEvent, TimerQuestion};
use crate::types::PaneId;
use vstd::arithmetic::power2::*;
use vstd::prelude::*;

verus! {

/// A refused prompt waits about two seconds before it is offered again, and about
/// four the next time; runs are spread by less than half a second.
pub proof fn lemma_retries_wait_longer_each_time(token: u64, attempts: u8)
    requires
        1 <= attempts <= 20,
    ensures
        2_000 * pow2((attempts - 1) as nat) <= retry_delay(token, attempts) <= 2_000 * pow2(
            (attempts - 1) as nat,
        ) + 400,
        retry_delay(token, 1) >= 2_000,
        retry_delay(token, 1) <= 2_400,
        retry_delay(token, attempts) < retry_delay(token, (attempts + 1) as u8),
{
    lemma2_to64();
    lemma_pow2_unfold(attempts as nat);
    lemma_pow2_strictly_increases_bound(attempts);
}

proof fn lemma_pow2_strictly_increases_bound(attempts: u8)
    requires
        1 <= attempts <= 20,
    ensures
        1 <= pow2((attempts - 1) as nat) <= 0x10_0000,
        pow2(attempts as nat) <= 0x20_0000,
{
    lemma2_to64();
    if attempts < 20 {
        lemma_pow2_strictly_increases((attempts - 1) as nat, 20);
        lemma_pow2_strictly_increases(attempts as nat, 21);
    }
    lemma_pow2_pos((attempts - 1) as nat);
    assert(pow2(19) == 0x80000);
    assert(pow2(20) == 0x100000);
    lemma_pow2_unfold(21);
    if attempts == 20 {
        assert(pow2(attempts as nat) == 0x100000);
    }
}

/// A turn has one prompt that waits to be offered again: the new one takes the
/// place of any other of the same turn, and those of other turns stay.
pub proof fn lemma_one_prompt_per_turn(list: Seq<PendingDelivery>, next: PendingDelivery)
    ensures
        ({
            let kept = list.filter(of_other_turn(next.kind, next.token)).push(next);
            &&& kept.last() == next
            &&& forall|k: int|
                0 <= k < kept.len() - 1 ==> !((#[trigger] kept[k]).kind == next.kind
                    && kept[k].token == next.token)
            &&& forall|d: PendingDelivery|
                list.contains(d) && !(d.kind == next.kind && d.token == next.token)
                    ==> #[trigger] kept.contains(d)
        }),
{
    let keep = of_other_turn(next.kind, next.token);
    let rest = list.filter(keep);
    let kept = rest.push(next);
    assert forall|k: int| 0 <= k < kept.len() - 1 implies !((#[trigger] kept[k]).kind == next.kind
        && kept[k].token == next.token) by {
        assert(rest.contains(rest[k]));
        lemma_filter_holds(list, keep, rest[k]);
    }
    assert forall|d: PendingDelivery|
        list.contains(d) && !(d.kind == next.kind && d.token == next.token) implies #[trigger] kept.contains(
    d) by {
        lemma_filter_holds(list, keep, d);
        let k = choose|k: int| 0 <= k < rest.len() && rest[k] == d;
        assert(kept[k] == d);
    }
}

/// A prompt is offered again once its time has come, and only while the run of
/// its task is still at that turn, in that Pane; one whose time has not come goes
/// on waiting.
pub proof fn lemma_prompt_offered_while_its_turn_is_open(
    all: Orchestrations,
    now: u64,
    d: PendingDelivery,
)
    requires
        all.wf(),
    ensures
        all.deliveries@.filter(delivery_later(now)).contains(d) <==> all.deliveries@.contains(d)
            && d.due > now,
        all.deliveries@.filter(delivery_ready(all, now)).contains(d) <==> all.deliveries@.contains(
            d,
        ) && d.due <= now && exists|i: int|
            {
                &&& 0 <= i < all.runs(d.kind).len()
                &&& (#[trigger] all.runs(d.kind)[i]).task_id == d.task_id
                &&& all.runs(d.kind)[i].state.token == d.token
                &&& all.runs(d.kind)[i].role_panes@[all.runs(d.kind)[i].state.cur as int] == d.pane
            },
{
    lemma_filter_holds(all.deliveries@, delivery_later(now), d);
    lemma_filter_holds(all.deliveries@, delivery_ready(all, now), d);
    let runs = all.runs(d.kind);
    assert forall|i: int| 0 <= i < runs.len() implies (#[trigger] runs[i]).owns_turn(
        d.task_id,
        d.token,
        d.pane,
    ) == (runs[i].task_id == d.task_id && runs[i].state.token == d.token
        && runs[i].role_panes@[runs[i].state.cur as int] == d.pane) by {
        assert(runs[i].wf());
    }
}

/// A check of artifacts that ran out of time is given up on only while its turn
/// is still open; one with time left goes on.
pub proof fn lemma_check_lapses_in_its_time(all: Orchestrations, now: u64, s: PendingSubmission)
    requires
        all.wf(),
    ensures
        all.submissions@.filter(check_later(now)).contains(s) <==> all.submissions@.contains(s)
            && s.due > now,
        all.submissions@.filter(check_lapsed(all, now)).contains(s) <==> all.submissions@.contains(
            s,
        ) && s.due <= now && exists|i: int|
            {
                &&& 0 <= i < all.runs(s.kind).len()
                &&& (#[trigger] all.runs(s.kind)[i]).task_id == s.task_id
                &&& all.runs(s.kind)[i].state.token == s.token
                &&& all.runs(s.kind)[i].role_panes@[all.runs(s.kind)[i].state.cur as int] == s.pane
            },
{
    lemma_filter_holds(all.submissions@, check_later(now), s);
    lemma_filter_holds(all.submissions@, check_lapsed(all, now), s);
    let runs = all.runs(s.kind);
    assert forall|i: int| 0 <= i < runs.len() implies (#[trigger] runs[i]).owns_turn(
        s.task_id,
        s.token,
        s.pane,
    ) == (runs[i].task_id == s.task_id && runs[i].state.token == s.token
        && runs[i].role_panes@[runs[i].state.cur as int] == s.pane) by {
        assert(runs[i].wf());
    }
}

proof fn lemma_tasks_due(runs: Seq<ActiveRun>, timer: RunTimer, now: u64, n: nat, task: u64)
    requires
        n <= runs.len(),
    ensures
        tasks_due(runs, timer, now, n).contains(task) <==> exists|i: int|
            0 <= i < n && (#[trigger] runs[i]).task_id == task && (runs[i].timer(timer) matches Some(
                at,
            ) && at <= now),
    decreases n,
{
    if n > 0 {
        lemma_tasks_due(runs, timer, now, (n - 1) as nat, task);
        let rest = tasks_due(runs, timer, now, (n - 1) as nat);
        let all = tasks_due(runs, timer, now, n);
        let last = runs[n - 1];
        let passed = last.timer(timer) matches Some(at) && at <= now;
        if passed {
            assert(all == rest.push(last.task_id));
            assert(all.contains(task) <==> rest.contains(task) || last.task_id == task) by {
                if rest.contains(task) {
                    let k = choose|k: int| 0 <= k < rest.len() && rest[k] == task;
                    assert(all[k] == task);
                }
                if last.task_id == task {
                    assert(all[all.len() - 1] == task);
                }
            }
        }
    }
}

/// The tasks that are due are those with a run whose timer has passed. The limit
/// on a run's time passes only while a turn is open.
pub proof fn lemma_due_tasks_are_those_whose_time_passed(
    runs: Seq<ActiveRun>,
    timer: RunTimer,
    now: u64,
    task: u64,
)
    ensures
        tasks_due(runs, timer, now, runs.len()).contains(task) <==> exists|i: int|
            {
                &&& 0 <= i < runs.len()
                &&& (#[trigger] runs[i]).task_id == task
                &&& match timer {
                    RunTimer::Stall => runs[i].stall_deadline is Some
                        && runs[i].stall_deadline->0 <= now,
                    RunTimer::Idle => runs[i].idle_deadline is Some && runs[i].idle_deadline->0
                        <= now,
                    RunTimer::Elapsed => runs[i].state.phase is Awaiting
                        && runs[i].elapsed_deadline is Some && runs[i].elapsed_deadline->0 <= now,
                }
            },
{
    lemma_tasks_due(runs, timer, now, runs.len(), task);
}

/// A timer that passed is off, and so is that of silence: it does not pass again
/// until it is set again. A run that reached its time limit is marked, a stall
/// leaves the limit counting, and the work itself is untouched.
pub proof fn lemma_passed_timer_is_off(run: ActiveRun, timer: RunTimer, now_ms: u64)
    ensures
        ({
            let next = run.after_timer(timer);
            let question = asked(run, timer, now_ms);
            &&& next.timer(timer) is None
            &&& next.stall_deadline is None
            &&& timer is Idle || timer is Elapsed ==> next.idle_deadline is None
            &&& timer is Stall ==> next.idle_deadline == run.idle_deadline
            &&& timer is Stall || timer is Idle ==> {
                &&& next.elapsed_deadline == run.elapsed_deadline
                &&& next.elapsed_guard_triggered == run.elapsed_guard_triggered
            }
            &&& timer is Elapsed ==> next.elapsed_deadline is None && next.elapsed_guard_triggered
            &&& next.state == run.state
            &&& next.task_id == run.task_id
            &&& next.kind == run.kind
            &&& next.roles == run.roles
            &&& next.role_panes == run.role_panes
            &&& next.started == run.started
            &&& timer is Stall ==> question == TimerQuestion::Engine(EngineEvent::Stall)
            &&& timer is Idle ==> question == TimerQuestion::Engine(
                EngineEvent::Idle { role: run.state.cur },
            )
            &&& timer is Elapsed ==> {
                &&& question matches TimerQuestion::Guard { elapsed, limit }
                &&& limit == run.guard_limits.max_elapsed_seconds
                &&& elapsed >= limit
                &&& elapsed > limit ==> run.started_at_ms + elapsed * 1_000 <= now_ms
                    < run.started_at_ms + elapsed * 1_000 + 1_000
            }
        }),
{
}

/// A run's time runs out when the wall clock reaches its start plus its limit: as
/// long from now on the server's clock as it is on the wall's. A limit that was
/// reported needs no wakeup.
pub proof fn lemma_time_limit_counts_from_the_start(run: ActiveRun, now_ms: u64, clock_ms: u64)
    requires
        run.started_at_ms <= now_ms,
        run.guard_limits.max_elapsed_seconds <= 1_000_000_000,
        run.started_at_ms + 1_000_000_000_000 <= u64::MAX,
        clock_ms + 1_000_000_000_000 <= u64::MAX,
    ensures
        ({
            let end = run.started_at_ms + 1_000 * run.guard_limits.max_elapsed_seconds;
            &&& rearmed(run, true, now_ms, clock_ms) is None
            &&& rearmed(run, false, now_ms, clock_ms) matches Some(at)
            &&& now_ms <= end ==> at - clock_ms == end - now_ms
            &&& now_ms > end ==> at == clock_ms
        }),
{
}

proof fn lemma_awaiting_in(runs: Seq<ActiveRun>, pane: PaneId, i: int)
    requires
        0 <= i,
    ensures
        awaiting_in(runs, pane, i) matches Some(k) ==> i <= k < runs.len() && runs[k].awaits_in(pane),
        awaiting_in(runs, pane, i) is None ==> forall|k: int|
            i <= k < runs.len() ==> !(#[trigger] runs[k]).awaits_in(pane),
    decreases runs.len() - i,
{
    if i < runs.len() && !runs[i].awaits_in(pane) {
        lemma_awaiting_in(runs, pane, i + 1);
    }
}

/// Giving a role its full time again touches the open turn in that Pane and no
/// other.
pub proof fn lemma_full_time_goes_to_the_open_turn(runs: Seq<ActiveRun>, pane: PaneId, due: u64)
    requires
        crate::orchestration::all_wf(runs),
    ensures
        ({
            let armed = stall_armed(runs, pane, due);
            let open = |k: int|
                0 <= k < runs.len() && runs[k].state.phase is Awaiting
                    && runs[k].role_panes@[runs[k].state.cur as int] == pane;
            &&& armed.len() == runs.len()
            &&& forall|k: int|
                0 <= k < runs.len() ==> (#[trigger] armed[k] == runs[k] || (open(k)
                    && armed[k].stall_deadline == Some(due) && armed[k].state == runs[k].state
                    && armed[k].idle_deadline == runs[k].idle_deadline
                    && armed[k].elapsed_deadline == runs[k].elapsed_deadline))
            &&& (exists|k: int| #[trigger] open(k)) ==> exists|k: int|
                #[trigger] open(k) && armed[k].stall_deadline == Some(due)
            &&& !(exists|k: int| #[trigger] open(k)) ==> armed == runs
        }),
{
    lemma_awaiting_in(runs, pane, 0);
    let open = |k: int|
        0 <= k < runs.len() && runs[k].state.phase is Awaiting
            && runs[k].role_panes@[runs[k].state.cur as int] == pane;
    let armed = stall_armed(runs, pane, due);
    assert forall|k: int| 0 <= k < runs.len() implies open(k) == (#[trigger] runs[k]).awaits_in(
        pane,
    ) by {
        assert(runs[k].wf());
    }
    if let Some(i) = awaiting_in(runs, pane, 0) {
        assert(open(i));
        assert(armed[i].stall_deadline == Some(due));
    } else {
        assert forall|k: int| !(#[trigger] open(k)) by {
            if 0 <= k < runs.len() {
                assert(!runs[k].awaits_in(pane));
            }
        }
    }
}

/// An idle agent's turn may end by itself only where it is open in that Pane, no
/// human is asked there and nothing of it is being checked; a workflow's verifier,
/// and a role that owes artifacts, never lose their turn that way.
pub proof fn lemma_idle_turn_ends_only_where_nothing_is_owed(
    run: ActiveRun,
    submissions: Seq<PendingSubmission>,
    pane: PaneId,
    due: Option<u64>,
    waiting: bool,
)
    requires
        run.wf(),
    ensures
        ({
            let next = idle_reconciled(run, submissions, pane, due, waiting);
            let cur = run.state.cur as int;
            let open = run.state.phase is Awaiting && run.role_panes@[cur] == pane;
            let checked = exists|i: int|
                0 <= i < submissions.len() && (#[trigger] submissions[i]).token == run.state.token;
            let owes = run.kind is Workflow && (run.roles@[cur].verifier
                || run.roles@[cur].expected_artifacts@.len() > 0);
            &&& !open ==> next == run
            &&& open && (waiting || checked || owes) ==> next.idle_deadline is None
            &&& open && !waiting && !checked && !owes ==> next.idle_deadline == due
            &&& next.stall_deadline == run.stall_deadline
            &&& next.elapsed_deadline == run.elapsed_deadline
            &&& next.state == run.state
            &&& next.task_id == run.task_id
        }),
{
}

/// While a human is asked in the Pane of its turn, or its submission is being
/// checked, a run does not lose its turn for being idle; others keep their time.
pub proof fn lemma_idle_time_stops_while_asked_or_checked(
    run: ActiveRun,
    waiting: Seq<PaneId>,
    submissions: Seq<PendingSubmission>,
)
    requires
        run.wf(),
    ensures
        ({
            let next = idle_blocked(run, waiting, submissions);
            let stopped = waiting.contains(run.role_panes@[run.state.cur as int]) || exists|i: int|
                0 <= i < submissions.len() && (#[trigger] submissions[i]).token == run.state.token;
            &&& stopped ==> next.idle_deadline is None
            &&& !stopped ==> next.idle_deadline == run.idle_deadline
            &&& next.stall_deadline == run.stall_deadline
            &&& next.elapsed_deadline == run.elapsed_deadline
            &&& next.state == run.state
        }),
{
}

proof fn lemma_resumable_in(runs: Seq<ActiveRun>, pane: PaneId, i: int)
    requires
        0 <= i,
    ensures
        resumable_in(runs, pane, i) matches Some(k) ==> {
            &&& i <= k < runs.len()
            &&& runs[k].current_pane() == Some(pane)
            &&& runs[k].is_live()
        },
        resumable_in(runs, pane, i) is None ==> forall|k: int|
            i <= k < runs.len() ==> !((#[trigger] runs[k]).current_pane() == Some(pane)
                && runs[k].is_live()),
    decreases runs.len() - i,
{
    if i < runs.len() && !(runs[i].current_pane() == Some(pane) && runs[i].is_live()) {
        lemma_resumable_in(runs, pane, i + 1);
    }
}

/// A run goes on where its role stands in the Pane and it is open or paused. An
/// open turn is opened once more as it was; a paused run asks its engine, with
/// its time counting again unless its limit was reported.
pub proof fn lemma_run_goes_on_where_it_stood(
    runs: Seq<ActiveRun>,
    pane: PaneId,
    now_ms: u64,
    clock_ms: u64,
)
    requires
        crate::orchestration::all_wf(runs),
    ensures
        resumable_in(runs, pane, 0) matches Some(k) ==> {
            let run = runs[k];
            let next = resumption(run, now_ms, clock_ms);
            &&& 0 <= k < runs.len()
            &&& run.role_panes@[run.state.cur as int] == pane
            &&& run.state.phase is Awaiting || run.state.phase is Paused
            &&& next.run.state == run.state
            &&& next.run.task_id == run.task_id
            &&& next.run.stall_deadline == run.stall_deadline
            &&& run.state.phase is Awaiting ==> next.run == run && next.action == Some(
                Action::Inject { role: run.state.cur, token: run.state.token },
            )
            &&& run.state.phase is Paused ==> next.action is None
            &&& run.state.phase is Paused && run.elapsed_guard_triggered
                ==> next.run.elapsed_deadline is None
            &&& run.state.phase is Paused && !run.elapsed_guard_triggered
                ==> next.run.elapsed_deadline is Some
        },
        resumable_in(runs, pane, 0) is None ==> forall|k: int|
            0 <= k < runs.len() ==> !((#[trigger] runs[k]).role_panes@[runs[k].state.cur as int]
                == pane && (runs[k].state.phase is Awaiting || runs[k].state.phase is Paused)),
{
    lemma_resumable_in(runs, pane, 0);
    assert forall|k: int| 0 <= k < runs.len() implies (#[trigger] runs[k]).current_pane() == Some(
        runs[k].role_panes@[runs[k].state.cur as int],
    ) by {
        assert(runs[k].wf());
    }
    if let Some(k) = resumable_in(runs, pane, 0) {
        assert(runs[k].current_pane() == Some(runs[k].role_panes@[runs[k].state.cur as int]));
    }
}

proof fn lemma_canceled(runs: Seq<ActiveRun>, pane: PaneId, i: int, task: u64)
    requires
        0 <= i <= runs.len(),
    ensures
        canceled(runs, pane, i).contains(task) <==> exists|k: int|
            i <= k < runs.len() && (#[trigger] runs[k]).task_id == task
                && runs[k].role_panes@.contains(pane),
    decreases runs.len() - i,
{
    if i < runs.len() {
        if runs[i].involves(pane) {
            let rest = taken(runs, i);
            lemma_canceled(rest, pane, i, task);
            let tail = canceled(rest, pane, i);
            let all = canceled(runs, pane, i);
            assert(all == seq![runs[i].task_id] + tail);
            assert(all.contains(task) <==> runs[i].task_id == task || tail.contains(task)) by {
                if tail.contains(task) {
                    let k = choose|k: int| 0 <= k < tail.len() && tail[k] == task;
                    assert(all[k + 1] == task);
                }
                if runs[i].task_id == task {
                    assert(all[0] == task);
                }
                if all.contains(task) {
                    let k = choose|k: int| 0 <= k < all.len() && all[k] == task;
                    if k > 0 {
                        assert(tail[k - 1] == task);
                    }
                }
            }
            if tail.contains(task) {
                let k = choose|k: int|
                    i <= k < rest.len() && (#[trigger] rest[k]).task_id == task
                        && rest[k].role_panes@.contains(pane);
                if k == i {
                    assert(runs[runs.len() - 1] == rest[k]);
                } else {
                    assert(runs[k] == rest[k]);
                }
            }
            if exists|k: int|
                i <= k < runs.len() && (#[trigger] runs[k]).task_id == task
                    && runs[k].role_panes@.contains(pane) {
                let k = choose|k: int|
                    i <= k < runs.len() && (#[trigger] runs[k]).task_id == task
                        && runs[k].role_panes@.contains(pane);
                if k != i {
                    if k == runs.len() - 1 {
                        assert(rest[i] == runs[k]);
                    } else {
                        assert(rest[k] == runs[k]);
                    }
                }
            }
        } else {
            lemma_canceled(runs, pane, i + 1, task);
        }
    }
}

/// A Pane that closes ends the tasks of exactly the runs with a role in it, and
/// with them what was checked, prompted or waiting for them.
pub proof fn lemma_closed_pane_ends_its_runs(
    runs: Seq<ActiveRun>,
    pane: PaneId,
    task: u64,
    check: PendingSubmission,
    checks: Seq<PendingSubmission>,
    turn: PendingRelayActivation,
    turns: Seq<PendingRelayActivation>,
    prompt: PendingDelivery,
    prompts: Seq<PendingDelivery>,
)
    ensures
        canceled(runs, pane, 0).contains(task) <==> exists|k: int|
            0 <= k < runs.len() && (#[trigger] runs[k]).task_id == task
                && runs[k].role_panes@.contains(pane),
        checks.filter(not_among(canceled(runs, pane, 0))).contains(check) <==> checks.contains(
            check,
        ) && !(exists|k: int|
            0 <= k < runs.len() && (#[trigger] runs[k]).task_id == check.task_id
                && runs[k].role_panes@.contains(pane)),
        turns.filter(activation_not_among(canceled(runs, pane, 0))).contains(turn)
            <==> turns.contains(turn) && !(exists|k: int|
            0 <= k < runs.len() && (#[trigger] runs[k]).task_id == turn.task_id
                && runs[k].role_panes@.contains(pane)),
        prompts.filter(delivered_elsewhere(pane)).contains(prompt) <==> prompts.contains(prompt)
            && prompt.pane != pane,
{
    lemma_canceled(runs, pane, 0, task);
    lemma_canceled(runs, pane, 0, check.task_id);
    lemma_canceled(runs, pane, 0, turn.task_id);
    lemma_filter_holds(checks, not_among(canceled(runs, pane, 0)), check);
    lemma_filter_holds(turns, activation_not_among(canceled(runs, pane, 0)), turn);
    lemma_filter_holds(prompts, delivered_elsewhere(pane), prompt);
}

/// A prompt that was taken gives its role ten minutes from now; the first one
/// marks the role's agent as running. No other run changes, and nothing else of
/// this one.
pub proof fn lemma_prompt_starts_the_turn(
    before: Seq<ActiveRun>,
    after: Seq<ActiveRun>,
    task_id: u64,
    first: bool,
    now: u64,
    i: int,
)
    requires
        task_prompted(before, after, task_id, first, now),
        now <= u64::MAX - 600_000,
        crate::orchestration::all_wf(before),
        0 <= i < before.len(),
        before[i].task_id == task_id,
        forall|k: int| 0 <= k < i ==> (#[trigger] before[k]).task_id != task_id,
    ensures
        after.len() == before.len(),
        forall|k: int| 0 <= k < before.len() && k != i ==> #[trigger] after[k] == before[k],
        after[i].stall_deadline == Some((now + 600_000) as u64),
        after[i].state == before[i].state,
        after[i].task_id == task_id,
        after[i].role_panes == before[i].role_panes,
        after[i].idle_deadline == before[i].idle_deadline,
        after[i].elapsed_deadline == before[i].elapsed_deadline,
        after[i].started@.len() == before[i].started@.len(),
        first ==> after[i].started@[before[i].state.cur as int],
        forall|k: int|
            0 <= k < before[i].started@.len() && (k != before[i].state.cur || !first)
                ==> #[trigger] after[i].started@[k] == before[i].started@[k],
{
    lemma_run_of_task(before, task_id, 0, i);
    assert(before[i].wf());
}

proof fn lemma_run_of_task(runs: Seq<ActiveRun>, task_id: u64, from: int, i: int)
    requires
        0 <= from <= i < runs.len(),
        runs[i].task_id == task_id,
        forall|k: int| from <= k < i ==> (#[trigger] runs[k]).task_id != task_id,
    ensures
        run_of_task(runs, task_id, from) == Some(i),
    decreases i - from,
{
    if from < i {
        lemma_run_of_task(runs, task_id, from + 1, i);
    }
}

/// A role that took its prompt has ten minutes from now; after its first prompt
/// its agent runs, and no other role is touched.
pub proof fn lemma_prompted_role_has_its_time(
    before: ActiveRun,
    after: ActiveRun,
    role: int,
    first: bool,
    now: u64,
)
    requires
        role_prompted(before, after, role, first, now),
        before.wf(),
        0 <= role < before.roles@.len(),
        now <= u64::MAX - 600_000,
    ensures
        after.stall_deadline == Some((now + 600_000) as u64),
        after.state == before.state,
        after.roles == before.roles,
        after.role_panes == before.role_panes,
        first ==> after.started@[role],
        forall|k: int|
            0 <= k < before.started@.len() && (k != role || !first) ==> #[trigger] after.started@[k]
                == before.started@[k],
{
}

proof fn lemma_due_is_least(
    submissions: Seq<PendingSubmission>,
    deliveries: Seq<PendingDelivery>,
    runs: Seq<ActiveRun>,
    n: nat,
)
    ensures
        n <= submissions.len() ==> forall|k: int|
            0 <= k < n ==> submissions_due(submissions, n) is Some && submissions_due(
                submissions,
                n,
            )->0 <= (#[trigger] submissions[k]).due,
        n <= deliveries.len() ==> forall|k: int|
            0 <= k < n ==> deliveries_due(deliveries, n) is Some && deliveries_due(
                deliveries,
                n,
            )->0 <= (#[trigger] deliveries[k]).due,
        n <= runs.len() ==> forall|k: int|
            0 <= k < n && (#[trigger] runs[k]).deadline() is Some ==> runs_due(runs, n) is Some
                && runs_due(runs, n)->0 <= runs[k].deadline()->0,
    decreases n,
{
    if n > 0 {
        lemma_due_is_least(submissions, deliveries, runs, (n - 1) as nat);
    }
}

/// Nothing that is armed is slept through: the next wakeup is no later than any
/// timer of a run, any check and any prompt that waits. The limit on a run's time
/// counts while a turn is open.
pub proof fn lemma_wakeup_is_in_time(
    submissions: Seq<PendingSubmission>,
    deliveries: Seq<PendingDelivery>,
    workflows: Seq<ActiveRun>,
    relays: Seq<ActiveRun>,
    k: int,
)
    ensures
        ({
            let at = orchestration_due(submissions, deliveries, workflows, relays);
            &&& 0 <= k < submissions.len() ==> at is Some && at->0 <= submissions[k].due
            &&& 0 <= k < deliveries.len() ==> at is Some && at->0 <= deliveries[k].due
            &&& 0 <= k < workflows.len() && workflows[k].stall_deadline is Some ==> at is Some
                && at->0 <= workflows[k].stall_deadline->0
            &&& 0 <= k < workflows.len() && workflows[k].idle_deadline is Some ==> at is Some
                && at->0 <= workflows[k].idle_deadline->0
            &&& 0 <= k < workflows.len() && workflows[k].state.phase is Awaiting
                && workflows[k].elapsed_deadline is Some ==> at is Some && at->0
                <= workflows[k].elapsed_deadline->0
            &&& 0 <= k < relays.len() && relays[k].stall_deadline is Some ==> at is Some && at->0
                <= relays[k].stall_deadline->0
            &&& 0 <= k < relays.len() && relays[k].idle_deadline is Some ==> at is Some && at->0
                <= relays[k].idle_deadline->0
            &&& 0 <= k < relays.len() && relays[k].state.phase is Awaiting
                && relays[k].elapsed_deadline is Some ==> at is Some && at->0
                <= relays[k].elapsed_deadline->0
            &&& submissions.len() == 0 && deliveries.len() == 0 && workflows.len() == 0
                && relays.len() == 0 ==> at is None
        }),
{
    lemma_due_is_least(submissions, deliveries, workflows, submissions.len());
    lemma_due_is_least(submissions, deliveries, workflows, deliveries.len());
    lemma_due_is_least(submissions, deliveries, workflows, workflows.len());
    lemma_due_is_least(submissions, deliveries, relays, relays.len());
    if 0 <= k < workflows.len() {
        let _ = workflows[k].deadline();
    }
    if 0 <= k < relays.len() {
        let _ = relays[k].deadline();
    }
}

/// No turn ever gets the token zero.
pub proof fn lemma_token_is_never_zero(value: u64)
    ensures
        token_step(value) != 0,
{
}

/// What is handed to a running program is the text and a return, and nothing in
/// between but the marks of a paste where the program asked for them: the escape
/// sequences 200 before and 201 after the text.
pub proof fn lemma_pasted_text_is_the_text(text: Seq<char>, bracketed: bool)
    ensures
        ({
            let body = vstd::utf8::encode_utf8(text);
            let n = body.len() as int;
            let bytes = paste(text, bracketed);
            &&& bytes.last() == 13
            &&& !bracketed ==> bytes.drop_last() == body
            &&& bracketed ==> {
                &&& bytes.len() == body.len() + 13
                &&& bytes.take(6) == seq![0x1bu8, 0x5b, 0x32, 0x30, 0x30, 0x7e]
                &&& bytes.subrange(6, 6 + n) == body
                &&& bytes.subrange(6 + n, 12 + n) == seq![
                    0x1bu8,
                    0x5b,
                    0x32,
                    0x30,
                    0x31,
                    0x7e,
                ]
            }
        }),
{
    let body = vstd::utf8::encode_utf8(text);
    let n = body.len() as int;
    let bytes = paste(text, bracketed);
    if bracketed {
        assert(bytes.take(6) =~= seq![0x1bu8, 0x5b, 0x32, 0x30, 0x30, 0x7e]);
        assert(bytes.subrange(6, 6 + n) =~= body);
        assert(bytes.subrange(6 + n, 12 + n) =~= seq![
            0x1bu8,
            0x5b,
            0x32,
            0x30,
            0x31,
            0x7e,
        ]);
    } else {
        assert(bytes.drop_last() =~= body);
    }
}

/// A run that is done is completed, one that a human stopped is canceled, and any
/// other failed. Its Tab says how it ended.
pub proof fn lemma_run_ends_as_it_was_told(run: ActiveRun, done: bool, outcome: Seq<char>)
    ensures
        run_end(done, outcome) is Completed <==> done,
        run_end(done, outcome) is Canceled <==> !done && outcome == "stopped by human"@,
        ended_title(run, outcome).len() >= outcome.len(),
        ended_title(run, outcome).skip(ended_title(run, outcome).len() - outcome.len()) == outcome,
{
    let title = ended_title(run, outcome);
    assert(title.skip(title.len() - outcome.len()) =~= outcome);
}

/// The prompt of a relay turn ends with the command that hands in this very turn,
/// after the role, the goal and what the role before had to say.
pub proof fn lemma_relay_prompt_names_its_turn(
    role: Seq<char>,
    goal: Seq<char>,
    token: u64,
    handoff: Option<Seq<char>>,
)
    ensures
        ({
            let prompt = relay_prompt_text(role, goal, token, handoff);
            let submit = "uniterm relay submit "@ + crate::text::decimal(token as nat);
            let opening = "You are the "@ + role + " in a Uniterm relay. Goal: "@ + goal;
            &&& prompt.len() >= submit.len() + opening.len()
            &&& prompt.skip(prompt.len() - submit.len()) == submit
            &&& prompt.take(opening.len() as int) == opening
            &&& crate::text::number_of(crate::text::decimal(token as nat)) == token
            &&& handoff matches Some(said) ==> crate::text::trimmed(said).len() > 0 ==> exists|at: int|
                {
                    &&& opening.len() <= at <= prompt.len() - said.len() - submit.len()
                    &&& #[trigger] prompt.subrange(at, at + said.len()) == said
                }
        }),
{
    let prompt = relay_prompt_text(role, goal, token, handoff);
    let last = " Work in the shared Project, then run exactly: uniterm relay submit "@;
    let short = "uniterm relay submit "@;
    reveal_strlit(" Work in the shared Project, then run exactly: uniterm relay submit ");
    reveal_strlit("uniterm relay submit ");
    reveal_strlit(".");
    reveal_strlit(" Previous role summary: ");
    let number = crate::text::decimal(token as nat);
    let submit = short + number;
    let opening = "You are the "@ + role + " in a Uniterm relay. Goal: "@ + goal;
    assert(last.skip(last.len() - short.len()) =~= short);
    assert(prompt.skip(prompt.len() - submit.len()) =~= submit);
    assert(prompt.take(opening.len() as int) =~= opening);
    crate::text::lemma_decimal_is_the_number(token as nat);
    if let Some(said) = handoff {
        if crate::text::trimmed(said).len() > 0 {
            let at = opening.len() as int + 1 + " Previous role summary: "@.len() as int;
            assert(prompt.subrange(at, at + said.len()) =~= said);
        }
    }
}

} // verus!
