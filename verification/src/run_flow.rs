//! What moves live runs along: prompt deliveries and their retries, deadlines
//! that pass, resumed turns, and runs that lose a Pane.
use crate::guardrail::{elapsed_deadline, elapsed_seconds};
use crate::lists::{lemma_filter_none, lemma_filter_step};
use crate::orchestration::{
    ActiveRun, Action, OrchestrationKind, Orchestrations, PendingDelivery, PendingRelayActivation,
    PendingSubmission, Phase, MAX_DELIVERY_ATTEMPTS,
    ORCHESTRATION_STALL_TIMEOUT_MS,
};
use crate::types::PaneId;
use vstd::arithmetic::power2::*;
use vstd::prelude::*;

verus! {

/// `token` rotated left by at most 64 bits. A full turn changes nothing.
pub open spec fn rotated(token: u64, bits: u8) -> u64 {
    if bits == 0 || bits == 64 {
        token
    } else {
        (token << (bits as u64)) | (token >> ((64 - bits) as u64))
    }
}

fn rotate(token: u64, bits: u8) -> (out: u64)
    requires
        bits <= 64,
    ensures
        out == rotated(token, bits),
{
    if bits == 0 || bits == 64 {
        token
    } else {
        let left: u64 = bits as u64;
        let right: u64 = 64 - left;
        (token << left) | (token >> right)
    }
}

/// How long a refused prompt waits, in milliseconds: it doubles with each
/// attempt, and the token spreads the runs.
pub open spec fn retry_delay(token: u64, attempts: u8) -> int {
    let doublings: nat = if attempts == 0 {
        0
    } else {
        (attempts - 1) as nat
    };
    let base = 2_000 * pow2(doublings);
    let jitter = rotated(token, attempts) % 401;
    let capped = if base > u64::MAX {
        u64::MAX as int
    } else {
        base as int
    };
    if capped + jitter > u64::MAX {
        u64::MAX as int
    } else {
        capped + jitter
    }
}

fn retry_wait(token: u64, attempts: u8) -> (delay: u64)
    requires
        attempts <= 64,
    ensures
        delay == retry_delay(token, attempts),
{
    let doublings: u8 = if attempts == 0 {
        0
    } else {
        attempts - 1
    };
    let mut base: u64 = 2_000;
    let mut i: u8 = 0;
    proof {
        lemma2_to64();
    }
    while i < doublings
        invariant
            i <= doublings,
            base == if 2_000 * pow2(i as nat) > u64::MAX {
                u64::MAX as int
            } else {
                2_000 * pow2(i as nat) as int
            },
        decreases doublings - i,
    {
        proof {
            lemma_pow2_unfold((i + 1) as nat);
        }
        base = match base.checked_mul(2) {
            Some(twice) => twice,
            None => u64::MAX,
        };
        i += 1;
    }
    base.saturating_add(rotate(token, attempts) % 401)
}

/// Deliveries of other turns.
pub open spec fn of_other_turn(kind: OrchestrationKind, token: u64) -> spec_fn(
    PendingDelivery,
) -> bool {
    |d: PendingDelivery| d.kind != kind || d.token != token
}

/// Deliveries whose time has not come.
pub open spec fn delivery_later(now: u64) -> spec_fn(PendingDelivery) -> bool {
    |d: PendingDelivery| d.due > now
}

/// Some run of the list still has this turn open.
pub open spec fn turn_open(runs: Seq<ActiveRun>, task_id: u64, token: u64, pane: PaneId) -> bool {
    exists|i: int| 0 <= i < runs.len() && (#[trigger] runs[i]).owns_turn(task_id, token, pane)
}

/// Deliveries whose time has come and whose turn is still open.
pub open spec fn delivery_ready(all: Orchestrations, now: u64) -> spec_fn(PendingDelivery) -> bool {
    |d: PendingDelivery|
        d.due <= now && turn_open(all.runs(d.kind), d.task_id, d.token, d.pane)
}

/// Checks whose time has not run out.
pub open spec fn check_later(now: u64) -> spec_fn(PendingSubmission) -> bool {
    |s: PendingSubmission| s.due > now
}

/// Checks that ran out of time while their turn is still open.
pub open spec fn check_lapsed(all: Orchestrations, now: u64) -> spec_fn(PendingSubmission) -> bool {
    |s: PendingSubmission|
        s.due <= now && turn_open(all.runs(s.kind), s.task_id, s.token, s.pane)
}

fn is_turn_open(runs: &Vec<ActiveRun>, task_id: u64, token: u64, pane: PaneId) -> (open: bool)
    ensures
        open == turn_open(runs@, task_id, token, pane),
{
    let mut i: usize = 0;
    while i < runs.len()
        invariant
            i <= runs@.len(),
            forall|j: int|
                0 <= j < i ==> !(#[trigger] runs@[j]).owns_turn(task_id, token, pane),
        decreases runs@.len() - i,
    {
        if runs[i].task_id == task_id && runs[i].state.token == token {
            match runs[i].pane_of_turn() {
                Some(current) => {
                    if current == pane {
                        assert(runs@[i as int].owns_turn(task_id, token, pane));
                        return true;
                    }
                },
                None => {},
            }
        }
        i += 1;
    }
    false
}

/// The first run of a task from position `i` on.
pub open spec fn run_of_task(runs: Seq<ActiveRun>, task_id: u64, i: int) -> Option<int>
    decreases runs.len() - i,
{
    if i < 0 || i >= runs.len() {
        None
    } else if runs[i].task_id == task_id {
        Some(i)
    } else {
        run_of_task(runs, task_id, i + 1)
    }
}

fn find_task(runs: &Vec<ActiveRun>, task_id: u64) -> (found: Option<usize>)
    ensures
        crate::hierarchy::index_of(found) == run_of_task(runs@, task_id, 0),
        found matches Some(i) ==> i < runs@.len(),
{
    let mut i: usize = 0;
    while i < runs.len()
        invariant
            i <= runs@.len(),
            run_of_task(runs@, task_id, 0) == run_of_task(runs@, task_id, i as int),
        decreases runs@.len() - i,
    {
        if runs[i].task_id == task_id {
            return Some(i);
        }
        i += 1;
    }
    None
}

/// A run after its prompt was taken: the role has its full time, and after the
/// first prompt its agent runs.
pub open spec fn prompted(before: ActiveRun, after: ActiveRun, first: bool, now: u64) -> bool {
    &&& after == (ActiveRun {
        stall_deadline: Some((now + ORCHESTRATION_STALL_TIMEOUT_MS) as u64),
        started: after.started,
        ..before
    })
    &&& after.started@ == if first {
        before.started@.update(before.state.cur as int, true)
    } else {
        before.started@
    }
}

/// The list after the run of the task took its prompt; other runs are as
/// before.
pub open spec fn task_prompted(
    before: Seq<ActiveRun>,
    after: Seq<ActiveRun>,
    task_id: u64,
    first: bool,
    now: u64,
) -> bool {
    match run_of_task(before, task_id, 0) {
        Some(i) => {
            &&& after.len() == before.len()
            &&& prompted(before[i], after[i], first, now)
            &&& forall|k: int|
                0 <= k < before.len() && k != i ==> #[trigger] after[k] == before[k]
        },
        None => after == before,
    }
}

fn prompt_task(runs: &mut Vec<ActiveRun>, task_id: u64, first: bool, now: u64)
    requires
        crate::orchestration::all_wf(old(runs)@),
        now <= u64::MAX - ORCHESTRATION_STALL_TIMEOUT_MS,
    ensures
        task_prompted(old(runs)@, final(runs)@, task_id, first, now),
        crate::orchestration::all_wf(final(runs)@),
        forall|k: int|
            0 <= k < old(runs)@.len() ==> (#[trigger] final(runs)@[k]).kind == old(runs)@[k].kind,
{
    let ghost before = runs@;
    match find_task(runs, task_id) {
        Some(i) => {
            assert(before[i as int].wf());
            runs[i].stall_deadline = Some(now + ORCHESTRATION_STALL_TIMEOUT_MS);
            if first {
                let cur: usize = runs[i].state.cur;
                runs[i].started.set(cur, true);
            }
            assert forall|k: int| 0 <= k < runs@.len() implies (#[trigger] runs@[k]).wf() by {
                assert(before[k].wf());
            }
        },
        None => {},
    }
}

/// What became of a delivery.
#[derive(Debug)]
pub enum DeliveryEffect {
    /// The Pane took it. The request that waits there is resolved, and after
    /// the first prompt the Pane belongs to the agent.
    Delivered { pane: PaneId, kind: OrchestrationKind, bind: Option<String> },
    /// It is offered again later.
    Retrying,
    /// A human is asked.
    Failed { pane: PaneId, kind: OrchestrationKind },
}

/// The timers of a run.
#[derive(Clone, Copy, Debug, PartialEq, Eq, Structural)]
pub enum RunTimer {
    Stall,
    Elapsed,
    Idle,
}

impl ActiveRun {
    /// When a timer of the run passes. The time limit counts only while a turn
    /// is open.
    pub open spec fn timer(self, timer: RunTimer) -> Option<u64> {
        match timer {
            RunTimer::Stall => self.stall_deadline,
            RunTimer::Idle => self.idle_deadline,
            RunTimer::Elapsed => if self.state.phase == Phase::Awaiting {
                self.elapsed_deadline
            } else {
                None
            },
        }
    }

    /// The run with the timers off that a passed timer makes moot.
    pub open spec fn after_timer(self, timer: RunTimer) -> ActiveRun {
        match timer {
            RunTimer::Stall => ActiveRun { stall_deadline: None, ..self },
            RunTimer::Idle => ActiveRun { stall_deadline: None, idle_deadline: None, ..self },
            RunTimer::Elapsed => ActiveRun {
                elapsed_deadline: None,
                elapsed_guard_triggered: true,
                stall_deadline: None,
                idle_deadline: None,
                ..self
            },
        }
    }

    /// Take note that a timer passed.
    pub fn begin_timer(&mut self, timer: RunTimer)
        ensures
            *final(self) == old(self).after_timer(timer),
    {
        match timer {
            RunTimer::Stall => {
                self.stall_deadline = None;
            },
            RunTimer::Idle => {
                self.idle_deadline = None;
                self.stall_deadline = None;
            },
            RunTimer::Elapsed => {
                self.elapsed_deadline = None;
                self.elapsed_guard_triggered = true;
                self.stall_deadline = None;
                self.idle_deadline = None;
            },
        }
    }

    /// How long the run has taken, in seconds; at least its limit, once that
    /// passed.
    pub fn elapsed_measure(&self, now_ms: u64) -> (seconds: u64)
        ensures
            ({
                let elapsed = if now_ms < self.started_at_ms {
                    0
                } else {
                    (now_ms - self.started_at_ms) / 1_000
                };
                seconds == if elapsed < self.guard_limits.max_elapsed_seconds {
                    self.guard_limits.max_elapsed_seconds as int
                } else {
                    elapsed
                }
            }),
    {
        let elapsed: u64 = elapsed_seconds(self.started_at_ms, now_ms);
        if elapsed < self.guard_limits.max_elapsed_seconds {
            self.guard_limits.max_elapsed_seconds
        } else {
            elapsed
        }
    }

    /// The time limit was not exceeded after all: count it again.
    pub fn elapsed_allowed(&mut self, now_ms: u64, clock_ms: u64)
        ensures
            *final(self) == (ActiveRun {
                elapsed_guard_triggered: false,
                elapsed_deadline: rearmed(*old(self), false, now_ms, clock_ms),
                ..*old(self)
            }),
    {
        self.elapsed_guard_triggered = false;
        self.elapsed_deadline = elapsed_deadline(
            self.started_at_ms,
            self.guard_limits,
            false,
            now_ms,
            clock_ms,
        );
    }

    /// Some role of the run lives in this Pane.
    pub open spec fn involves(self, pane: PaneId) -> bool {
        self.role_panes@.contains(pane)
    }

    fn uses_pane(&self, pane: PaneId) -> (uses: bool)
        ensures
            uses == self.involves(pane),
    {
        let mut i: usize = 0;
        while i < self.role_panes.len()
            invariant
                i <= self.role_panes@.len(),
                forall|j: int| 0 <= j < i ==> self.role_panes@[j] != pane,
            decreases self.role_panes@.len() - i,
        {
            if self.role_panes[i] == pane {
                assert(self.role_panes@.contains(self.role_panes@[i as int]));
                return true;
            }
            i += 1;
        }
        false
    }
}

/// When the run exceeds its time.
pub open spec fn rearmed(run: ActiveRun, triggered: bool, now_ms: u64, clock_ms: u64) -> Option<
    u64,
> {
    if triggered {
        None
    } else {
        let left = crate::guardrail::remaining_ms(run.started_at_ms, now_ms, run.guard_limits);
        Some(
            if clock_ms + left > u64::MAX {
                u64::MAX
            } else {
                (clock_ms + left) as u64
            },
        )
    }
}

/// The tasks, of the first `n` runs, whose timer passed.
pub open spec fn tasks_due(runs: Seq<ActiveRun>, timer: RunTimer, now: u64, n: nat) -> Seq<u64>
    decreases n,
{
    if n == 0 {
        Seq::empty()
    } else {
        let rest = tasks_due(runs, timer, now, (n - 1) as nat);
        if runs[n - 1].timer(timer) matches Some(at) && at <= now {
            rest.push(runs[n - 1].task_id)
        } else {
            rest
        }
    }
}

fn list_due(runs: &Vec<ActiveRun>, timer: RunTimer, now: u64) -> (tasks: Vec<u64>)
    ensures
        tasks@ == tasks_due(runs@, timer, now, runs@.len()),
{
    let mut tasks: Vec<u64> = Vec::new();
    let mut i: usize = 0;
    while i < runs.len()
        invariant
            i <= runs@.len(),
            tasks@ == tasks_due(runs@, timer, now, i as nat),
        decreases runs@.len() - i,
    {
        let at: Option<u64> = match timer {
            RunTimer::Stall => runs[i].stall_deadline,
            RunTimer::Idle => runs[i].idle_deadline,
            RunTimer::Elapsed => if runs[i].state.phase == Phase::Awaiting {
                runs[i].elapsed_deadline
            } else {
                None
            },
        };
        let passed = match at {
            Some(at) => at <= now,
            None => false,
        };
        if passed {
            tasks.push(runs[i].task_id);
        }
        i += 1;
    }
    tasks
}

/// A run whose idle fallback is off while a human is asked in its Pane or its
/// submission is being checked.
pub open spec fn idle_blocked(
    run: ActiveRun,
    waiting: Seq<PaneId>,
    submissions: Seq<PendingSubmission>,
) -> ActiveRun {
    if (run.current_pane() matches Some(pane) && waiting.contains(pane))
        || crate::orchestration::checking(submissions, run.state.token) {
        ActiveRun { idle_deadline: None, ..run }
    } else {
        run
    }
}

fn has_pane(list: &Vec<PaneId>, pane: PaneId) -> (found: bool)
    ensures
        found == list@.contains(pane),
{
    let mut i: usize = 0;
    while i < list.len()
        invariant
            i <= list@.len(),
            forall|j: int| 0 <= j < i ==> list@[j] != pane,
        decreases list@.len() - i,
    {
        if list[i] == pane {
            assert(list@.contains(list@[i as int]));
            return true;
        }
        i += 1;
    }
    false
}

fn block_idle(
    runs: &mut Vec<ActiveRun>,
    waiting: &Vec<PaneId>,
    submissions: &Vec<PendingSubmission>,
)
    ensures
        final(runs)@.len() == old(runs)@.len(),
        forall|k: int|
            0 <= k < old(runs)@.len() ==> #[trigger] final(runs)@[k] == idle_blocked(
                old(runs)@[k],
                waiting@,
                submissions@,
            ),
{
    let ghost before = runs@;
    let mut i: usize = 0;
    while i < runs.len()
        invariant
            i <= runs@.len(),
            runs@.len() == before.len(),
            forall|k: int|
                0 <= k < i ==> #[trigger] runs@[k] == idle_blocked(
                    before[k],
                    waiting@,
                    submissions@,
                ),
            forall|k: int| i <= k < before.len() ==> #[trigger] runs@[k] == before[k],
        decreases runs@.len() - i,
    {
        assert(runs@[i as int] == before[i as int]);
        let asked = match runs[i].pane_of_turn() {
            Some(pane) => has_pane(waiting, pane),
            None => false,
        };
        if asked || crate::orchestration::is_checking(submissions, runs[i].state.token) {
            runs[i].idle_deadline = None;
        }
        i += 1;
    }
}

/// The first run from position `i` on whose turn is open in `pane`.
pub open spec fn awaiting_in(runs: Seq<ActiveRun>, pane: PaneId, i: int) -> Option<int>
    decreases runs.len() - i,
{
    if i < 0 || i >= runs.len() {
        None
    } else if runs[i].awaits_in(pane) {
        Some(i)
    } else {
        awaiting_in(runs, pane, i + 1)
    }
}

/// The first run from position `i` on that can go on with its role in `pane`.
pub open spec fn resumable_in(runs: Seq<ActiveRun>, pane: PaneId, i: int) -> Option<int>
    decreases runs.len() - i,
{
    if i < 0 || i >= runs.len() {
        None
    } else if runs[i].current_pane() == Some(pane) && runs[i].is_live() {
        Some(i)
    } else {
        resumable_in(runs, pane, i + 1)
    }
}

fn find_resumable(runs: &Vec<ActiveRun>, pane: PaneId) -> (found: Option<usize>)
    ensures
        crate::hierarchy::index_of(found) == resumable_in(runs@, pane, 0),
        found matches Some(i) ==> i < runs@.len(),
{
    let mut i: usize = 0;
    while i < runs.len()
        invariant
            i <= runs@.len(),
            resumable_in(runs@, pane, 0) == resumable_in(runs@, pane, i as int),
        decreases runs@.len() - i,
    {
        let here = match runs[i].pane_of_turn() {
            Some(current) => current == pane,
            None => false,
        };
        if here && runs[i].live() {
            return Some(i);
        }
        i += 1;
    }
    None
}

/// The list with the full time for the first run whose turn is open in `pane`.
pub open spec fn stall_armed(runs: Seq<ActiveRun>, pane: PaneId, due: u64) -> Seq<ActiveRun> {
    match awaiting_in(runs, pane, 0) {
        Some(i) => runs.update(i, ActiveRun { stall_deadline: Some(due), ..runs[i] }),
        None => runs,
    }
}

fn arm_stall(runs: &mut Vec<ActiveRun>, pane: PaneId, due: u64)
    ensures
        final(runs)@ == stall_armed(old(runs)@, pane, due),
{
    let ghost before = runs@;
    let mut i: usize = 0;
    while i < runs.len()
        invariant
            i <= runs@.len(),
            before == old(runs)@,
            runs@ == before,
            awaiting_in(before, pane, 0) == awaiting_in(before, pane, i as int),
        decreases runs@.len() - i,
    {
        let here = match runs[i].pane_of_turn() {
            Some(current) => current == pane,
            None => false,
        };
        if here && runs[i].state.phase == Phase::Awaiting {
            runs[i].stall_deadline = Some(due);
            assert(runs@ =~= stall_armed(before, pane, due));
            return;
        }
        i += 1;
    }
}

/// Prompts for other Panes.
pub open spec fn delivered_elsewhere(pane: PaneId) -> spec_fn(PendingDelivery) -> bool {
    |d: PendingDelivery| d.pane != pane
}

/// A list with its element at `i` taken out, and the last put there.
pub open spec fn taken<T>(list: Seq<T>, i: int) -> Seq<T> {
    list.update(i, list.last()).drop_last()
}

/// What is left when, from position `i` on, every run with a role in `pane` is
/// taken out.
pub open spec fn spared(runs: Seq<ActiveRun>, pane: PaneId, i: int) -> Seq<ActiveRun>
    decreases runs.len() - i,
{
    if i < 0 || i >= runs.len() {
        runs
    } else if runs[i].involves(pane) {
        spared(taken(runs, i), pane, i)
    } else {
        spared(runs, pane, i + 1)
    }
}

/// The tasks of those runs, in the order in which they are taken out.
pub open spec fn canceled(runs: Seq<ActiveRun>, pane: PaneId, i: int) -> Seq<u64>
    decreases runs.len() - i,
{
    if i < 0 || i >= runs.len() {
        Seq::empty()
    } else if runs[i].involves(pane) {
        seq![runs[i].task_id] + canceled(taken(runs, i), pane, i)
    } else {
        canceled(runs, pane, i + 1)
    }
}

fn cancel_runs(runs: &mut Vec<ActiveRun>, pane: PaneId) -> (tasks: Vec<u64>)
    ensures
        final(runs)@ == spared(old(runs)@, pane, 0),
        tasks@ == canceled(old(runs)@, pane, 0),
{
    let ghost before = runs@;
    let mut tasks: Vec<u64> = Vec::new();
    let mut i: usize = 0;
    while i < runs.len()
        invariant
            i <= runs@.len(),
            spared(before, pane, 0) == spared(runs@, pane, i as int),
            canceled(before, pane, 0) == tasks@ + canceled(runs@, pane, i as int),
        decreases runs@.len() - i,
    {
        if runs[i].uses_pane(pane) {
            let ghost list = runs@;
            let ghost listed = tasks@;
            let run = runs.swap_remove(i);
            tasks.push(run.task_id);
            assert(runs@ == taken(list, i as int));
            assert(tasks@ + canceled(runs@, pane, i as int) =~= listed + canceled(
                list,
                pane,
                i as int,
            ));
        } else {
            i += 1;
        }
    }
    assert(tasks@ + canceled(runs@, pane, i as int) =~= tasks@);
    tasks
}

proof fn lemma_spared(runs: Seq<ActiveRun>, pane: PaneId, i: int, run: ActiveRun)
    requires
        0 <= i <= runs.len(),
        forall|k: int| 0 <= k < i ==> !(#[trigger] runs[k]).involves(pane),
    ensures
        spared(runs, pane, i).contains(run) <==> runs.contains(run) && !run.involves(pane),
    decreases runs.len() - i,
{
    if i < runs.len() {
        if runs[i].involves(pane) {
            let rest = taken(runs, i);
            assert forall|k: int| 0 <= k < i implies !(#[trigger] rest[k]).involves(pane) by {
                assert(rest[k] == runs[k]);
            }
            lemma_spared(rest, pane, i, run);
            if rest.contains(run) {
                let k = choose|k: int| 0 <= k < rest.len() && rest[k] == run;
                if k == i {
                    assert(runs[runs.len() - 1] == run);
                } else {
                    assert(runs[k] == run);
                }
            }
            if runs.contains(run) && !run.involves(pane) {
                let k = choose|k: int| 0 <= k < runs.len() && runs[k] == run;
                if k == runs.len() - 1 {
                    assert(rest[i] == run);
                } else {
                    assert(rest[k] == run);
                }
            }
        } else {
            lemma_spared(runs, pane, i + 1, run);
        }
    } else if runs.contains(run) {
        let k = choose|k: int| 0 <= k < runs.len() && runs[k] == run;
        assert(!runs[k].involves(pane));
    }
}

/// A Pane that closes ends exactly the runs that have a role in it.
pub proof fn lemma_cancel_exact(runs: Seq<ActiveRun>, pane: PaneId)
    ensures
        forall|run: ActiveRun| #[trigger]
            spared(runs, pane, 0).contains(run) <==> runs.contains(run) && !run.involves(pane),
{
    assert forall|run: ActiveRun| #[trigger]
        spared(runs, pane, 0).contains(run) <==> runs.contains(run) && !run.involves(pane) by {
        lemma_spared(runs, pane, 0, run);
    }
}

/// Checks of other tasks.
pub open spec fn not_among(tasks: Seq<u64>) -> spec_fn(PendingSubmission) -> bool {
    |s: PendingSubmission| !tasks.contains(s.task_id)
}

/// Relay turns of other tasks.
pub open spec fn activation_not_among(tasks: Seq<u64>) -> spec_fn(PendingRelayActivation) -> bool {
    |p: PendingRelayActivation| !tasks.contains(p.task_id)
}

fn has_task(tasks: &Vec<u64>, task_id: u64) -> (found: bool)
    ensures
        found == tasks@.contains(task_id),
{
    let mut i: usize = 0;
    while i < tasks.len()
        invariant
            i <= tasks@.len(),
            forall|j: int| 0 <= j < i ==> tasks@[j] != task_id,
        decreases tasks@.len() - i,
    {
        if tasks[i] == task_id {
            assert(tasks@.contains(tasks@[i as int]));
            return true;
        }
        i += 1;
    }
    false
}

pub(crate) fn drop_submissions(list: &mut Vec<PendingSubmission>, tasks: &Vec<u64>)
    ensures
        final(list)@ == old(list)@.filter(not_among(tasks@)),
{
    let ghost given = list@;
    let ghost keep = not_among(tasks@);
    let mut rest: Vec<PendingSubmission> = Vec::new();
    std::mem::swap(&mut rest, list);
    let ghost mut i: int = 0;
    proof {
        lemma_filter_none(given, keep);
    }
    assert(given.skip(0) =~= given);
    while rest.len() > 0
        invariant
            0 <= i <= given.len(),
            rest@ == given.skip(i),
            keep == not_among(tasks@),
            list@ == given.take(i).filter(keep),
        decreases rest@.len(),
    {
        proof {
            lemma_filter_step(given, i, keep);
        }
        let one = rest.remove(0);
        assert(rest@ =~= given.skip(i + 1));
        if !has_task(tasks, one.task_id) {
            list.push(one);
        }
        proof {
            i = i + 1;
        }
    }
    assert(given.take(i) =~= given);
}

fn drop_activations(list: &mut Vec<PendingRelayActivation>, tasks: &Vec<u64>)
    ensures
        final(list)@ == old(list)@.filter(activation_not_among(tasks@)),
{
    let ghost given = list@;
    let ghost keep = activation_not_among(tasks@);
    let mut rest: Vec<PendingRelayActivation> = Vec::new();
    std::mem::swap(&mut rest, list);
    let ghost mut i: int = 0;
    proof {
        lemma_filter_none(given, keep);
    }
    assert(given.skip(0) =~= given);
    while rest.len() > 0
        invariant
            0 <= i <= given.len(),
            rest@ == given.skip(i),
            keep == activation_not_among(tasks@),
            list@ == given.take(i).filter(keep),
        decreases rest@.len(),
    {
        proof {
            lemma_filter_step(given, i, keep);
        }
        let one = rest.remove(0);
        assert(rest@ =~= given.skip(i + 1));
        if !has_task(tasks, one.task_id) {
            list.push(one);
        }
        proof {
            i = i + 1;
        }
    }
    assert(given.take(i) =~= given);
}

/// A run that is to go on.
#[derive(Debug)]
pub struct ResumedRun {
    pub run: ActiveRun,
    /// What to do; without one, the engine is asked with the resume event.
    pub action: Option<Action>,
}

/// The runs that a closed Pane ended.
#[derive(Debug)]
pub struct CanceledRuns {
    pub workflows: Vec<u64>,
    pub relays: Vec<u64>,
}

impl Orchestrations {
    /// Offer a refused prompt again later, in place of any other of its turn.
    pub fn schedule_prompt_retry(&mut self, delivery: PendingDelivery, now: u64)
        requires
            delivery.attempts <= 64,
            now + retry_delay(delivery.token, delivery.attempts) <= u64::MAX,
        ensures
            *final(self) == (Orchestrations { deliveries: final(self).deliveries, ..*old(self) }),
            final(self).deliveries@ == old(self).deliveries@.filter(
                of_other_turn(delivery.kind, delivery.token),
            ).push(
                PendingDelivery {
                    due: (now + retry_delay(delivery.token, delivery.attempts)) as u64,
                    ..delivery
                },
            ),
    {
        let ghost given = self.deliveries@;
        let ghost keep = of_other_turn(delivery.kind, delivery.token);
        let mut delivery = delivery;
        delivery.due = now + retry_wait(delivery.token, delivery.attempts);
        let mut kept: Vec<PendingDelivery> = Vec::new();
        let mut rest: Vec<PendingDelivery> = Vec::new();
        std::mem::swap(&mut rest, &mut self.deliveries);
        let ghost mut i: int = 0;
        proof {
            lemma_filter_none(given, keep);
        }
        assert(given.skip(0) =~= given);
        while rest.len() > 0
            invariant
                0 <= i <= given.len(),
                rest@ == given.skip(i),
                keep == of_other_turn(delivery.kind, delivery.token),
                kept@ == given.take(i).filter(keep),
            decreases rest@.len(),
        {
            proof {
                lemma_filter_step(given, i, keep);
            }
            let one = rest.remove(0);
            assert(rest@ =~= given.skip(i + 1));
            if one.kind != delivery.kind || one.token != delivery.token {
                kept.push(one);
            }
            proof {
                i = i + 1;
            }
        }
        assert(given.take(i) =~= given);
        kept.push(delivery);
        self.deliveries = kept;
    }

    /// Whether a turn is still open.
    pub fn turn_is_open(&self, kind: OrchestrationKind, task_id: u64, token: u64, pane: PaneId) -> (open:
        bool)
        ensures
            open == turn_open(self.runs(kind), task_id, token, pane),
    {
        match kind {
            OrchestrationKind::Workflow => is_turn_open(&self.workflows, task_id, token, pane),
            OrchestrationKind::Relay => is_turn_open(&self.relays, task_id, token, pane),
        }
    }

    /// The prompts to offer now, in order. Those whose turn is over are
    /// dropped.
    pub fn take_due_deliveries(&mut self, now: u64) -> (due: Vec<PendingDelivery>)
        ensures
            *final(self) == (Orchestrations { deliveries: final(self).deliveries, ..*old(self) }),
            due@ == old(self).deliveries@.filter(delivery_ready(*old(self), now)),
            final(self).deliveries@ == old(self).deliveries@.filter(delivery_later(now)),
    {
        let ghost given = self.deliveries@;
        let ghost ready = delivery_ready(*self, now);
        let ghost later = delivery_later(now);
        let mut kept: Vec<PendingDelivery> = Vec::new();
        let mut due: Vec<PendingDelivery> = Vec::new();
        let mut rest: Vec<PendingDelivery> = Vec::new();
        std::mem::swap(&mut rest, &mut self.deliveries);
        let ghost mut i: int = 0;
        proof {
            lemma_filter_none(given, later);
            lemma_filter_none(given, ready);
        }
        assert(given.skip(0) =~= given);
        while rest.len() > 0
            invariant
                0 <= i <= given.len(),
                rest@ == given.skip(i),
                later == delivery_later(now),
                ready == delivery_ready(*old(self), now),
                self.workflows == old(self).workflows,
                self.relays == old(self).relays,
                *self == (Orchestrations { deliveries: self.deliveries, ..*old(self) }),
                kept@ == given.take(i).filter(later),
                due@ == given.take(i).filter(ready),
            decreases rest@.len(),
        {
            proof {
                lemma_filter_step(given, i, later);
                lemma_filter_step(given, i, ready);
            }
            let one = rest.remove(0);
            assert(rest@ =~= given.skip(i + 1));
            if one.due > now {
                kept.push(one);
            } else if self.turn_is_open(one.kind, one.task_id, one.token, one.pane) {
                due.push(one);
            }
            proof {
                i = i + 1;
            }
        }
        assert(given.take(i) =~= given);
        self.deliveries = kept;
        due
    }

    /// Take note of whether a Pane took an offered prompt.
    pub fn settle_delivery(&mut self, delivery: PendingDelivery, accepted: bool, now: u64) -> (effect:
        DeliveryEffect)
        requires
            old(self).wf(),
            now <= u64::MAX - ORCHESTRATION_STALL_TIMEOUT_MS,
        ensures
            final(self).wf(),
            accepted ==> {
                &&& effect == (DeliveryEffect::Delivered {
                    pane: delivery.pane,
                    kind: delivery.kind,
                    bind: if delivery.first_delivery {
                        Some(delivery.agent_id)
                    } else {
                        None
                    },
                })
                &&& *final(self) == (Orchestrations {
                    workflows: final(self).workflows,
                    relays: final(self).relays,
                    ..*old(self)
                })
                &&& match delivery.kind {
                    OrchestrationKind::Workflow => task_prompted(
                        old(self).workflows@,
                        final(self).workflows@,
                        delivery.task_id,
                        delivery.first_delivery,
                        now,
                    ) && final(self).relays@ == old(self).relays@,
                    OrchestrationKind::Relay => task_prompted(
                        old(self).relays@,
                        final(self).relays@,
                        delivery.task_id,
                        delivery.first_delivery,
                        now,
                    ) && final(self).workflows@ == old(self).workflows@,
                }
            },
            !accepted && delivery.attempts + 1 < MAX_DELIVERY_ATTEMPTS ==> {
                let next = PendingDelivery {
                    attempts: (delivery.attempts + 1) as u8,
                    due: (now + retry_delay(delivery.token, (delivery.attempts + 1) as u8)) as u64,
                    ..delivery
                };
                &&& effect is Retrying
                &&& *final(self) == (Orchestrations {
                    deliveries: final(self).deliveries,
                    ..*old(self)
                })
                &&& final(self).deliveries@ == old(self).deliveries@.filter(
                    of_other_turn(delivery.kind, delivery.token),
                ).push(next)
            },
            !accepted && delivery.attempts + 1 >= MAX_DELIVERY_ATTEMPTS ==> {
                &&& effect == (DeliveryEffect::Failed { pane: delivery.pane, kind: delivery.kind })
                &&& *final(self) == *old(self)
            },
    {
        if accepted {
            let first = delivery.first_delivery;
            match delivery.kind {
                OrchestrationKind::Workflow => {
                    prompt_task(&mut self.workflows, delivery.task_id, first, now);
                },
                OrchestrationKind::Relay => {
                    prompt_task(&mut self.relays, delivery.task_id, first, now);
                },
            }
            return DeliveryEffect::Delivered {
                pane: delivery.pane,
                kind: delivery.kind,
                bind: if first {
                    Some(delivery.agent_id)
                } else {
                    None
                },
            };
        }
        let attempts: u8 = delivery.attempts.saturating_add(1);
        if attempts < MAX_DELIVERY_ATTEMPTS {
            let mut delivery = delivery;
            delivery.attempts = attempts;
            proof {
                lemma2_to64();
            }
            self.schedule_prompt_retry(delivery, now);
            return DeliveryEffect::Retrying;
        }
        DeliveryEffect::Failed { pane: delivery.pane, kind: delivery.kind }
    }

    /// The tasks whose timer passed.
    pub fn due_tasks(&self, kind: OrchestrationKind, timer: RunTimer, now: u64) -> (tasks: Vec<u64>)
        ensures
            tasks@ == tasks_due(self.runs(kind), timer, now, self.runs(kind).len()),
    {
        match kind {
            OrchestrationKind::Workflow => list_due(&self.workflows, timer, now),
            OrchestrationKind::Relay => list_due(&self.relays, timer, now),
        }
    }

    /// Before idle turns end: turn the fallback off wherever a human is asked
    /// or a submission is being checked.
    pub fn block_idle_fallbacks(&mut self, waiting: &Vec<PaneId>)
        requires
            old(self).wf(),
        ensures
            final(self).wf(),
            *final(self) == (Orchestrations {
                workflows: final(self).workflows,
                relays: final(self).relays,
                ..*old(self)
            }),
            final(self).workflows@.len() == old(self).workflows@.len(),
            final(self).relays@.len() == old(self).relays@.len(),
            forall|k: int|
                0 <= k < old(self).workflows@.len() ==> #[trigger] final(self).workflows@[k]
                    == idle_blocked(old(self).workflows@[k], waiting@, old(self).submissions@),
            forall|k: int|
                0 <= k < old(self).relays@.len() ==> #[trigger] final(self).relays@[k]
                    == idle_blocked(old(self).relays@[k], waiting@, old(self).submissions@),
    {
        block_idle(&mut self.workflows, waiting, &self.submissions);
        block_idle(&mut self.relays, waiting, &self.submissions);
    }

    /// Take the run of a task out, to step its engine.
    pub fn take_run(&mut self, kind: OrchestrationKind, task_id: u64) -> (run: Option<ActiveRun>)
        requires
            old(self).wf(),
        ensures
            final(self).wf(),
            match run_of_task(old(self).runs(kind), task_id, 0) {
                Some(i) => {
                    &&& run == Some(old(self).runs(kind)[i])
                    &&& run matches Some(r) && r.wf() && r.kind == kind
                    &&& final(self).runs(kind) == taken(old(self).runs(kind), i)
                    &&& *final(self) == match kind {
                        OrchestrationKind::Workflow => Orchestrations {
                            workflows: final(self).workflows,
                            ..*old(self)
                        },
                        OrchestrationKind::Relay => Orchestrations {
                            relays: final(self).relays,
                            ..*old(self)
                        },
                    }
                },
                None => run is None && *final(self) == *old(self),
            },
    {
        match kind {
            OrchestrationKind::Workflow => match find_task(&self.workflows, task_id) {
                Some(i) => {
                    let ghost before = self.workflows@;
                    assert(before[i as int].wf());
                    let run = self.workflows.swap_remove(i);
                    assert forall|k: int| 0 <= k < self.workflows@.len() implies (
                    #[trigger] self.workflows@[k]).wf() && self.workflows@[k].kind
                        == OrchestrationKind::Workflow by {
                        assert(before[k].wf());
                        assert(before.last().wf());
                    }
                    Some(run)
                },
                None => None,
            },
            OrchestrationKind::Relay => match find_task(&self.relays, task_id) {
                Some(i) => {
                    let ghost before = self.relays@;
                    assert(before[i as int].wf());
                    let run = self.relays.swap_remove(i);
                    assert forall|k: int| 0 <= k < self.relays@.len() implies (
                    #[trigger] self.relays@[k]).wf() && self.relays@[k].kind
                        == OrchestrationKind::Relay by {
                        assert(before[k].wf());
                        assert(before.last().wf());
                    }
                    Some(run)
                },
                None => None,
            },
        }
    }

    /// Put a run back, at the end of its list.
    pub fn return_run(&mut self, run: ActiveRun)
        requires
            old(self).wf(),
            run.wf(),
        ensures
            final(self).wf(),
            final(self).runs(run.kind) == old(self).runs(run.kind).push(run),
            *final(self) == match run.kind {
                OrchestrationKind::Workflow => Orchestrations {
                    workflows: final(self).workflows,
                    ..*old(self)
                },
                OrchestrationKind::Relay => Orchestrations {
                    relays: final(self).relays,
                    ..*old(self)
                },
            },
    {
        match run.kind {
            OrchestrationKind::Workflow => self.workflows.push(run),
            OrchestrationKind::Relay => self.relays.push(run),
        }
    }

    /// The checks that ran out of time while their turn is still open, in
    /// order; a human is asked in each. Every lapsed check is forgotten.
    pub fn take_lapsed_checks(&mut self, now: u64) -> (lapsed: Vec<PendingSubmission>)
        ensures
            *final(self) == (Orchestrations { submissions: final(self).submissions, ..*old(self) }),
            lapsed@ == old(self).submissions@.filter(check_lapsed(*old(self), now)),
            final(self).submissions@ == old(self).submissions@.filter(check_later(now)),
    {
        let ghost given = self.submissions@;
        let ghost ready = check_lapsed(*self, now);
        let ghost later = check_later(now);
        let mut kept: Vec<PendingSubmission> = Vec::new();
        let mut lapsed: Vec<PendingSubmission> = Vec::new();
        let mut rest: Vec<PendingSubmission> = Vec::new();
        std::mem::swap(&mut rest, &mut self.submissions);
        let ghost mut i: int = 0;
        proof {
            lemma_filter_none(given, later);
            lemma_filter_none(given, ready);
        }
        assert(given.skip(0) =~= given);
        while rest.len() > 0
            invariant
                0 <= i <= given.len(),
                rest@ == given.skip(i),
                later == check_later(now),
                ready == check_lapsed(*old(self), now),
                *self == (Orchestrations { submissions: self.submissions, ..*old(self) }),
                kept@ == given.take(i).filter(later),
                lapsed@ == given.take(i).filter(ready),
            decreases rest@.len(),
        {
            proof {
                lemma_filter_step(given, i, later);
                lemma_filter_step(given, i, ready);
            }
            let one = rest.remove(0);
            assert(rest@ =~= given.skip(i + 1));
            if one.due > now {
                kept.push(one);
            } else if self.turn_is_open(one.kind, one.task_id, one.token, one.pane) {
                lapsed.push(one);
            }
            proof {
                i = i + 1;
            }
        }
        assert(given.take(i) =~= given);
        self.submissions = kept;
        lapsed
    }

    /// Give the roles whose turn is open in `pane` their full time again.
    pub fn arm_orchestration_deadline(&mut self, pane: PaneId, now: u64)
        requires
            now <= u64::MAX - ORCHESTRATION_STALL_TIMEOUT_MS,
        ensures
            *final(self) == (Orchestrations {
                workflows: final(self).workflows,
                relays: final(self).relays,
                ..*old(self)
            }),
            final(self).workflows@ == stall_armed(
                old(self).workflows@,
                pane,
                (now + ORCHESTRATION_STALL_TIMEOUT_MS) as u64,
            ),
            final(self).relays@ == stall_armed(
                old(self).relays@,
                pane,
                (now + ORCHESTRATION_STALL_TIMEOUT_MS) as u64,
            ),
    {
        let due: u64 = now + ORCHESTRATION_STALL_TIMEOUT_MS;
        arm_stall(&mut self.workflows, pane, due);
        arm_stall(&mut self.relays, pane, due);
    }

    /// Take out the run to go on with in `pane`: a workflow before a relay. A
    /// paused run counts its time again and asks its engine; another opens its
    /// turn once more.
    pub fn take_resumable(&mut self, pane: PaneId, now_ms: u64, clock_ms: u64) -> (resumed: Option<
        ResumedRun,
    >)
        requires
            old(self).wf(),
        ensures
            final(self).wf(),
            ({
                let workflow = resumable_in(old(self).workflows@, pane, 0);
                let relay = resumable_in(old(self).relays@, pane, 0);
                match (workflow, relay) {
                    (Some(i), _) => {
                        &&& resumed == Some(
                            resumption(old(self).workflows@[i], now_ms, clock_ms),
                        )
                        &&& final(self).workflows@ == taken(old(self).workflows@, i)
                        &&& *final(self) == (Orchestrations {
                            workflows: final(self).workflows,
                            ..*old(self)
                        })
                    },
                    (None, Some(i)) => {
                        &&& resumed == Some(resumption(old(self).relays@[i], now_ms, clock_ms))
                        &&& final(self).relays@ == taken(old(self).relays@, i)
                        &&& *final(self) == (Orchestrations {
                            relays: final(self).relays,
                            ..*old(self)
                        })
                    },
                    (None, None) => resumed is None && *final(self) == *old(self),
                }
            }),
            resumed matches Some(r) ==> r.run.wf(),
    {
        let run = match find_resumable(&self.workflows, pane) {
            Some(i) => {
                let ghost before = self.workflows@;
                assert(before[i as int].wf());
                let run = self.workflows.swap_remove(i);
                assert forall|k: int| 0 <= k < self.workflows@.len() implies (
                #[trigger] self.workflows@[k]).wf() && self.workflows@[k].kind
                    == OrchestrationKind::Workflow by {
                    assert(before[k].wf());
                    assert(before.last().wf());
                }
                run
            },
            None => match find_resumable(&self.relays, pane) {
                Some(i) => {
                    let ghost before = self.relays@;
                    assert(before[i as int].wf());
                    let run = self.relays.swap_remove(i);
                    assert forall|k: int| 0 <= k < self.relays@.len() implies (
                    #[trigger] self.relays@[k]).wf() && self.relays@[k].kind
                        == OrchestrationKind::Relay by {
                        assert(before[k].wf());
                        assert(before.last().wf());
                    }
                    run
                },
                None => {
                    return None;
                },
            },
        };
        let mut run = run;
        if run.state.phase == Phase::Paused {
            run.elapsed_deadline = elapsed_deadline(
                run.started_at_ms,
                run.guard_limits,
                run.elapsed_guard_triggered,
                now_ms,
                clock_ms,
            );
            Some(ResumedRun { run, action: None })
        } else {
            let action = Action::Inject { role: run.state.cur, token: run.state.token };
            Some(ResumedRun { run, action: Some(action) })
        }
    }

    /// Forget the prompts that were to be typed into a Pane again.
    pub fn drop_deliveries(&mut self, pane: PaneId)
        ensures
            final(self).deliveries@ == old(self).deliveries@.filter(delivered_elsewhere(pane)),
            *final(self) == (Orchestrations { deliveries: final(self).deliveries, ..*old(self) }),
    {
        let ghost given = self.deliveries@;
        let ghost keep = delivered_elsewhere(pane);
        let mut kept: Vec<PendingDelivery> = Vec::new();
        let mut rest: Vec<PendingDelivery> = Vec::new();
        std::mem::swap(&mut rest, &mut self.deliveries);
        let ghost mut i: int = 0;
        proof {
            lemma_filter_none(given, keep);
        }
        assert(given.skip(0) =~= given);
        while rest.len() > 0
            invariant
                0 <= i <= given.len(),
                rest@ == given.skip(i),
                keep == delivered_elsewhere(pane),
                kept@ == given.take(i).filter(keep),
            decreases rest@.len(),
        {
            proof {
                lemma_filter_step(given, i, keep);
                assert(rest@.remove(0) =~= given.skip(i + 1));
            }
            let delivery = rest.remove(0);
            if delivery.pane != pane {
                kept.push(delivery);
            }
            proof {
                i = i + 1;
            }
        }
        assert(given.take(i) =~= given);
        self.deliveries = kept;
    }

    /// End the runs that have a role in a Pane that closes, with their checks
    /// and waiting turns.
    pub fn cancel_orchestrations_for_pane(&mut self, pane: PaneId) -> (ended: CanceledRuns)
        requires
            old(self).wf(),
        ensures
            final(self).wf(),
            ended.workflows@ == canceled(old(self).workflows@, pane, 0),
            ended.relays@ == canceled(old(self).relays@, pane, 0),
            final(self).workflows@ == spared(old(self).workflows@, pane, 0),
            final(self).relays@ == spared(old(self).relays@, pane, 0),
            final(self).submissions@ == old(self).submissions@.filter(
                not_among(canceled(old(self).workflows@, pane, 0)),
            ).filter(not_among(canceled(old(self).relays@, pane, 0))),
            final(self).relay_activations@ == old(self).relay_activations@.filter(
                activation_not_among(canceled(old(self).relays@, pane, 0)),
            ),
            final(self).deliveries == old(self).deliveries,
            final(self).token_state == old(self).token_state,
    {
        let ghost workflows_before = self.workflows@;
        let ghost relays_before = self.relays@;
        let workflows = cancel_runs(&mut self.workflows, pane);
        drop_submissions(&mut self.submissions, &workflows);
        let relays = cancel_runs(&mut self.relays, pane);
        drop_submissions(&mut self.submissions, &relays);
        drop_activations(&mut self.relay_activations, &relays);
        proof {
            lemma_cancel_exact(workflows_before, pane);
            lemma_cancel_exact(relays_before, pane);
            assert forall|k: int| 0 <= k < self.workflows@.len() implies (
            #[trigger] self.workflows@[k]).wf() && self.workflows@[k].kind
                == OrchestrationKind::Workflow by {
                assert(self.workflows@.contains(self.workflows@[k]));
                let j = choose|j: int|
                    0 <= j < workflows_before.len() && workflows_before[j] == self.workflows@[k];
                assert(workflows_before[j].wf());
            }
            assert forall|k: int| 0 <= k < self.relays@.len() implies (
            #[trigger] self.relays@[k]).wf() && self.relays@[k].kind
                == OrchestrationKind::Relay by {
                assert(self.relays@.contains(self.relays@[k]));
                let j = choose|j: int|
                    0 <= j < relays_before.len() && relays_before[j] == self.relays@[k];
                assert(relays_before[j].wf());
            }
        }
        CanceledRuns { workflows, relays }
    }
}

/// How a run goes on.
pub open spec fn resumption(run: ActiveRun, now_ms: u64, clock_ms: u64) -> ResumedRun {
    if run.state.phase == Phase::Paused {
        ResumedRun {
            run: ActiveRun {
                elapsed_deadline: rearmed(run, run.elapsed_guard_triggered, now_ms, clock_ms),
                ..run
            },
            action: None,
        }
    } else {
        ResumedRun {
            run,
            action: Some(Action::Inject { role: run.state.cur, token: run.state.token }),
        }
    }
}

} // verus!
