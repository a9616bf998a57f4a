//! When the loop wakes up, and when the Workspace is written down.
use crate::orchestration::earlier;
use crate::types::PaneId;
use vstd::prelude::*;

verus! {

/// How long newly changed terminal history waits for a checkpoint, at most, in
/// milliseconds.
pub const DIRTY_SNAPSHOT_CADENCE_MS: u64 = 2_000;

/// When the checkpoint is due: as armed before, or a full wait from now.
pub open spec fn armed_at(current: Option<u64>, now: u64) -> int {
    match current {
        Some(at) => at as int,
        None => now + DIRTY_SNAPSHOT_CADENCE_MS,
    }
}

/// Arm the checkpoint, unless it is armed already.
pub fn arm_dirty_snapshot(current: Option<u64>, now: u64) -> (due: u64)
    requires
        current is None ==> now <= u64::MAX - DIRTY_SNAPSHOT_CADENCE_MS,
    ensures
        due == armed_at(current, now),
{
    match current {
        Some(at) => at,
        None => now + DIRTY_SNAPSHOT_CADENCE_MS,
    }
}

/// The state of durable writes.
#[derive(Clone, Copy, Debug, PartialEq, Eq, Structural)]
pub struct CheckpointState {
    pub deadline: Option<u64>,
    /// Off after a clean stop, so that nothing brings deleted state back.
    pub writes_enabled: bool,
}

impl CheckpointState {
    /// Nothing is due, and writes are on.
    pub fn new() -> (state: CheckpointState)
        ensures
            state == (CheckpointState { deadline: None, writes_enabled: true }),
    {
        CheckpointState { deadline: None, writes_enabled: true }
    }

    /// Terminal history changed.
    pub fn mark_snapshot_dirty(&mut self, now: u64)
        requires
            old(self).deadline is None ==> now <= u64::MAX - DIRTY_SNAPSHOT_CADENCE_MS,
        ensures
            *final(self) == (CheckpointState {
                deadline: Some(armed_at(old(self).deadline, now) as u64),
                ..*old(self)
            }),
    {
        self.deadline = Some(arm_dirty_snapshot(self.deadline, now));
    }

    /// Whether the checkpoint is due.
    pub fn flush_snapshot_due(&self, now: u64) -> (due: bool)
        ensures
            due == (self.deadline matches Some(at) && at <= now),
    {
        match self.deadline {
            Some(at) => at <= now,
            None => false,
        }
    }

    /// Write the Workspace down; whether anything may be written. The
    /// checkpoint is no longer due either way.
    pub fn persist(&mut self) -> (write: bool)
        ensures
            *final(self) == (CheckpointState { deadline: None, ..*old(self) }),
            write == old(self).writes_enabled,
    {
        self.deadline = None;
        self.writes_enabled
    }

    /// Stop writing for good.
    pub fn freeze(&mut self)
        ensures
            *final(self) == (CheckpointState { writes_enabled: false, ..*old(self) }),
    {
        self.writes_enabled = false;
    }
}

/// The state after the history changed at each of these times.
pub open spec fn dirtied(state: CheckpointState, times: Seq<u64>) -> CheckpointState
    decreases times.len(),
{
    if times.len() == 0 {
        state
    } else {
        let before = dirtied(state, times.drop_last());
        CheckpointState {
            deadline: Some(armed_at(before.deadline, times.last()) as u64),
            ..before
        }
    }
}

/// A checkpoint armed at `now` is due a full wait later, and output at any other
/// instant leaves it where it is.
pub proof fn lemma_armed_stays(now: u64, later: u64)
    requires
        now <= u64::MAX - DIRTY_SNAPSHOT_CADENCE_MS,
    ensures
        armed_at(None, now) == now + 2_000,
        armed_at(Some(armed_at(None, now) as u64), later) == armed_at(None, now),
{
}

/// However long output goes on, the checkpoint is due a full wait after the
/// first change.
pub proof fn lemma_output_never_postpones(state: CheckpointState, times: Seq<u64>)
    requires
        times.len() > 0,
        times[0] <= u64::MAX - DIRTY_SNAPSHOT_CADENCE_MS,
    ensures
        dirtied(state, times).deadline == match state.deadline {
            Some(at) => Some(at),
            None => Some((times[0] + DIRTY_SNAPSHOT_CADENCE_MS) as u64),
        },
    decreases times.len(),
{
    if times.len() > 1 {
        lemma_output_never_postpones(state, times.drop_last());
    } else {
        assert(dirtied(state, times.drop_last()) == state);
    }
}

/// The earliest of the first `n` deadlines.
pub open spec fn earliest(list: Seq<Option<u64>>, n: nat) -> Option<u64>
    decreases n,
{
    if n == 0 {
        None
    } else {
        crate::orchestration::sooner(earliest(list, (n - 1) as nat), list[n - 1])
    }
}

/// The earliest of several deadlines; `None` where none is armed.
pub fn next_deadline(list: &Vec<Option<u64>>) -> (at: Option<u64>)
    ensures
        at == earliest(list@, list@.len()),
{
    let mut at: Option<u64> = None;
    let mut i: usize = 0;
    while i < list.len()
        invariant
            i <= list@.len(),
            at == earliest(list@, i as nat),
        decreases list@.len() - i,
    {
        at = earlier(at, list[i]);
        i += 1;
    }
    at
}

/// The loop wakes no later than any armed deadline, and without one it does
/// not wake by itself.
pub proof fn lemma_earliest(list: Seq<Option<u64>>, n: nat)
    requires
        n <= list.len(),
    ensures
        earliest(list, n) is None <==> forall|i: int| 0 <= i < n ==> (#[trigger] list[i]) is None,
        earliest(list, n) matches Some(at) ==> {
            &&& exists|i: int| 0 <= i < n && #[trigger] list[i] == Some(at)
            &&& forall|i: int|
                0 <= i < n ==> ((#[trigger] list[i]) matches Some(other) ==> at <= other)
        },
    decreases n,
{
    if n > 0 {
        lemma_earliest(list, (n - 1) as nat);
        let rest = earliest(list, (n - 1) as nat);
        assert(list[n - 1] is None || list[n - 1] is Some);
        if let Some(at) = earliest(list, n) {
            if list[n - 1] == Some(at) {
            } else {
                let k = choose|k: int| 0 <= k < n - 1 && #[trigger] list[k] == Some(at);
                assert(list[k] == Some(at));
            }
        }
    }
}

/// How long the loop waits for events.
#[derive(Clone, Copy, Debug, PartialEq, Eq, Structural)]
pub enum PollTimeout {
    /// Not at all: work is left over.
    Now,
    /// Until something happens.
    Forever,
    Millis(u64),
}

/// Decide how long the loop waits. Left-over connections and reads only look
/// for what else is ready; otherwise the next deadline bounds the wait.
pub fn poll_timeout(
    accepts_pending: bool,
    reads_pending: bool,
    deadline: Option<u64>,
    now: u64,
) -> (timeout: PollTimeout)
    ensures
        timeout == if accepts_pending || reads_pending {
            PollTimeout::Now
        } else {
            match deadline {
                Some(at) => PollTimeout::Millis(
                    if at <= now {
                        0
                    } else {
                        (at - now) as u64
                    },
                ),
                None => PollTimeout::Forever,
            }
        },
{
    if accepts_pending || reads_pending {
        return PollTimeout::Now;
    }
    match deadline {
        Some(at) => PollTimeout::Millis(at.saturating_sub(now)),
        None => PollTimeout::Forever,
    }
}

/// Something that waits for a human in a Pane.
#[derive(Clone, Copy, Debug, PartialEq, Eq, Structural)]
pub struct WaitingItem {
    pub id: u64,
    pub pane: PaneId,
    /// The process that asked.
    pub invocation: Option<i32>,
}

/// The process that runs in a Pane.
#[derive(Clone, Copy, Debug, PartialEq, Eq, Structural)]
pub struct LiveInvocation {
    pub pane: PaneId,
    pub pid: Option<i32>,
}

/// The process of the first entry for a Pane, from position `i` on.
pub open spec fn invocation_in(live: Seq<LiveInvocation>, pane: PaneId, i: int) -> Option<i32>
    decreases live.len() - i,
{
    if i < 0 || i >= live.len() {
        None
    } else if live[i].pane == pane {
        live[i].pid
    } else {
        invocation_in(live, pane, i + 1)
    }
}

/// The process that asked is not the one that runs.
pub open spec fn is_stale(item: WaitingItem, live: Seq<LiveInvocation>) -> bool {
    item.invocation is None || invocation_in(live, item.pane, 0) != item.invocation
}

/// The ids, of the first `n` items, whose process is gone.
pub open spec fn stale_ids(items: Seq<WaitingItem>, live: Seq<LiveInvocation>, n: nat) -> Seq<u64>
    decreases n,
{
    if n == 0 {
        Seq::empty()
    } else {
        let rest = stale_ids(items, live, (n - 1) as nat);
        if is_stale(items[n - 1], live) {
            rest.push(items[n - 1].id)
        } else {
            rest
        }
    }
}

/// The items to resolve after a restart: those whose process is gone, before
/// another can take over their Pane.
pub fn stale_waiting_items(items: &Vec<WaitingItem>, live: &Vec<LiveInvocation>) -> (ids: Vec<u64>)
    ensures
        ids@ == stale_ids(items@, live@, items@.len()),
{
    let mut ids: Vec<u64> = Vec::new();
    let mut i: usize = 0;
    while i < items.len()
        invariant
            i <= items@.len(),
            ids@ == stale_ids(items@, live@, i as nat),
        decreases items@.len() - i,
    {
        let pane = items[i].pane;
        let mut pid: Option<i32> = None;
        let mut j: usize = 0;
        while j < live.len() && live[j].pane != pane
            invariant
                j <= live@.len(),
                invocation_in(live@, pane, 0) == invocation_in(live@, pane, j as int),
            decreases live@.len() - j,
        {
            j += 1;
        }
        if j < live.len() {
            pid = live[j].pid;
        }
        assert(pid == invocation_in(live@, pane, 0));
        let stale = match (items[i].invocation, pid) {
            (None, _) => true,
            (Some(_), None) => true,
            (Some(asked), Some(runs)) => asked != runs,
        };
        if stale {
            ids.push(items[i].id);
        }
        i += 1;
    }
    ids
}

} // verus!
