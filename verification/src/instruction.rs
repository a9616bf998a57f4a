//! Instructions that a human leaves for an agent, to be handed over when it is
//! ready.
use crate::checkpoint::LiveInvocation;
use crate::lists::{lemma_filter_none, lemma_filter_step};
use crate::text::{chars_of, trim};
use crate::types::PaneId;
use vstd::prelude::*;

verus! {

#[derive(Clone, Copy, Debug, PartialEq, Eq, Structural)]
pub enum InstructionAuthor {
    Human,
    Automation,
}

/// One instruction. It is meant for one run of an agent.
#[derive(Debug)]
pub struct Instruction {
    pub id: u64,
    pub pane: PaneId,
    /// The process that it is meant for.
    pub invocation: i32,
    pub author: InstructionAuthor,
    pub created_sequence: u64,
    pub text: String,
}

/// What is asked of the queue.
#[derive(Debug)]
pub enum InstructionCommand {
    Add { pane: PaneId, author: InstructionAuthor, text: String },
    Replace { id: u64, author: InstructionAuthor, text: String },
    Cancel { id: u64 },
}

/// What became of it.
#[derive(Clone, Copy, Debug, PartialEq, Eq, Structural)]
pub struct InstructionCommandResult {
    pub id: u64,
    pub found: bool,
    pub accepted: bool,
}

/// The instructions that wait, in the order in which they were given.
#[derive(Debug)]
pub struct InstructionQueue {
    pub items: Vec<Instruction>,
    pub next_id: u64,
    pub next_delivery: u64,
    /// The most characters of one instruction.
    pub max_chars: usize,
    /// The most instructions that wait for one process.
    pub capacity: usize,
}

/// The process that instructions for a Pane are meant for: the agent's, unless
/// another runs in front of it.
pub fn instruction_invocation(agent_pid: Option<i32>, foreground_pid: Option<i32>) -> (pid: Option<
    i32,
>)
    ensures
        pid == match (agent_pid, foreground_pid) {
            (Some(agent), Some(front)) => if agent != front {
                None
            } else {
                Some(agent)
            },
            (Some(agent), None) => Some(agent),
            (None, front) => front,
        },
{
    match (agent_pid, foreground_pid) {
        (Some(agent), Some(front)) => if agent != front {
            None
        } else {
            Some(agent)
        },
        (Some(agent), None) => Some(agent),
        (None, front) => front,
    }
}

/// The first instruction with this id, from position `i` on.
pub open spec fn instruction_at(items: Seq<Instruction>, id: u64, i: int) -> Option<int>
    decreases items.len() - i,
{
    if i < 0 || i >= items.len() {
        None
    } else if items[i].id == id {
        Some(i)
    } else {
        instruction_at(items, id, i + 1)
    }
}

/// The first instruction for a process, from position `i` on.
pub open spec fn instruction_for(items: Seq<Instruction>, pane: PaneId, pid: i32, i: int) -> Option<
    int,
>
    decreases items.len() - i,
{
    if i < 0 || i >= items.len() {
        None
    } else if items[i].pane == pane && items[i].invocation == pid {
        Some(i)
    } else {
        instruction_for(items, pane, pid, i + 1)
    }
}

/// How many of the first `n` instructions are meant for a process.
pub open spec fn waiting_for(items: Seq<Instruction>, pane: PaneId, pid: i32, n: nat) -> nat
    decreases n,
{
    if n == 0 {
        0
    } else {
        waiting_for(items, pane, pid, (n - 1) as nat) + if items[n - 1].pane == pane && items[n
            - 1].invocation == pid {
            1nat
        } else {
            0nat
        }
    }
}

/// Some live Pane has this id.
pub open spec fn pane_lives(live: Seq<LiveInvocation>, pane: PaneId) -> bool {
    exists|i: int| 0 <= i < live.len() && (#[trigger] live[i]).pane == pane
}

/// The process that runs in a Pane.
pub open spec fn runs_in(live: Seq<LiveInvocation>, pane: PaneId) -> Option<i32> {
    crate::checkpoint::invocation_in(live, pane, 0)
}

fn is_live(live: &Vec<LiveInvocation>, pane: PaneId) -> (found: bool)
    ensures
        found == pane_lives(live@, pane),
{
    let mut i: usize = 0;
    while i < live.len()
        invariant
            i <= live@.len(),
            forall|j: int| 0 <= j < i ==> (#[trigger] live@[j]).pane != pane,
        decreases live@.len() - i,
    {
        if live[i].pane == pane {
            return true;
        }
        i += 1;
    }
    false
}

fn running_in(live: &Vec<LiveInvocation>, pane: PaneId) -> (pid: Option<i32>)
    ensures
        pid == runs_in(live@, pane),
{
    let mut i: usize = 0;
    while i < live.len()
        invariant
            i <= live@.len(),
            runs_in(live@, pane) == crate::checkpoint::invocation_in(live@, pane, i as int),
        decreases live@.len() - i,
    {
        if live[i].pane == pane {
            return live[i].pid;
        }
        i += 1;
    }
    None
}

/// The text can be an instruction.
pub open spec fn is_instruction(text: Seq<char>, max_chars: usize) -> bool {
    crate::text::trimmed(text).len() > 0 && text.len() <= max_chars
}

fn usable(text: &str, max_chars: usize) -> (ok: bool)
    ensures
        ok == is_instruction(text@, max_chars),
{
    let kept = trim(text);
    if kept.as_str().is_empty() {
        assert(kept@.len() == 0);
        return false;
    }
    chars_of(text).len() <= max_chars
}

/// Instructions that a Pane's present process leaves in place.
pub open spec fn still_meant(pane: PaneId, pid: Option<i32>) -> spec_fn(Instruction) -> bool {
    |item: Instruction| item.pane != pane || pid == Some(item.invocation)
}

/// Instructions of other Panes.
pub open spec fn elsewhere(pane: PaneId) -> spec_fn(Instruction) -> bool {
    |item: Instruction| item.pane != pane
}

/// The ids, of the first `n` instructions, that a test does not spare.
pub open spec fn ids_without(
    items: Seq<Instruction>,
    keep: spec_fn(Instruction) -> bool,
    n: nat,
) -> Seq<u64>
    decreases n,
{
    if n == 0 {
        Seq::empty()
    } else {
        let rest = ids_without(items, keep, (n - 1) as nat);
        if keep(items[n - 1]) {
            rest
        } else {
            rest.push(items[n - 1].id)
        }
    }
}

/// How a handover begins.
#[derive(Debug)]
pub enum Handover {
    /// No such instruction waits.
    Missing,
    /// Its process ended; it was dropped.
    Ended,
    /// Submit the text to the Pane.
    Ready { pane: PaneId, text: String, delivery_id: u64 },
}

/// How sending an instruction at once begins.
#[derive(Debug)]
pub enum Sending {
    /// Events cannot be written down; `found` says that the instruction waits.
    Refused { found: bool },
    Begun(Handover),
}

/// A ready agent's turn at the instructions that wait for it.
#[derive(Debug)]
pub struct ReadyTurn {
    /// The instructions that were dropped: their process ended.
    pub dropped: Vec<u64>,
    /// The instruction to hand over.
    pub next: Option<ReadyItem>,
}

/// An instruction to submit to a ready agent.
#[derive(Debug)]
pub struct ReadyItem {
    pub id: u64,
    pub pane: PaneId,
    pub text: String,
    pub delivery_id: u64,
}

impl InstructionQueue {
    /// How handing an instruction over begins, and what it does to the queue.
    pub open spec fn handed(
        self,
        after: InstructionQueue,
        id: u64,
        live: Seq<LiveInvocation>,
        handover: Handover,
    ) -> bool {
        match instruction_at(self.items@, id, 0) {
            None => handover is Missing && after == self,
            Some(i) => {
                let item = self.items@[i];
                if runs_in(live, item.pane) != Some(item.invocation) {
                    &&& handover is Ended
                    &&& after.items@ == self.items@.remove(i)
                    &&& after == (InstructionQueue { items: after.items, ..self })
                } else {
                    &&& handover == (Handover::Ready {
                        pane: item.pane,
                        text: item.text,
                        delivery_id: self.next_delivery,
                    })
                    &&& after == (InstructionQueue {
                        next_delivery: (self.next_delivery + 1) as u64,
                        ..self
                    })
                }
            },
        }
    }

    /// Every instruction has its own id, below the next one.
    pub open spec fn wf(self) -> bool {
        &&& forall|i: int| 0 <= i < self.items@.len() ==> (#[trigger] self.items@[i]).id < self.next_id
        &&& forall|i: int, j: int|
            0 <= i < j < self.items@.len() ==> (#[trigger] self.items@[i]).id != (
            #[trigger] self.items@[j]).id
    }

    pub fn new(max_chars: usize, capacity: usize) -> (queue: InstructionQueue)
        ensures
            queue.wf(),
            queue.items@.len() == 0,
            queue.next_id == 1,
            queue.next_delivery == 1,
            queue.max_chars == max_chars,
            queue.capacity == capacity,
    {
        InstructionQueue { items: Vec::new(), next_id: 1, next_delivery: 1, max_chars, capacity }
    }

    fn find(&self, id: u64) -> (found: Option<usize>)
        ensures
            crate::hierarchy::index_of(found) == instruction_at(self.items@, id, 0),
            found matches Some(i) ==> i < self.items@.len() && self.items@[i as int].id == id,
    {
        let mut i: usize = 0;
        while i < self.items.len()
            invariant
                i <= self.items@.len(),
                instruction_at(self.items@, id, 0) == instruction_at(self.items@, id, i as int),
            decreases self.items@.len() - i,
        {
            if self.items[i].id == id {
                return Some(i);
            }
            i += 1;
        }
        None
    }

    fn count_for(&self, pane: PaneId, pid: i32) -> (n: usize)
        ensures
            n == waiting_for(self.items@, pane, pid, self.items@.len()),
    {
        let mut n: usize = 0;
        let mut i: usize = 0;
        while i < self.items.len()
            invariant
                i <= self.items@.len(),
                n <= i,
                n == waiting_for(self.items@, pane, pid, i as nat),
            decreases self.items@.len() - i,
        {
            if self.items[i].pane == pane && self.items[i].invocation == pid {
                n += 1;
            }
            i += 1;
        }
        n
    }

    /// What a command comes to. `live` lists every Pane with the process that
    /// instructions for it are meant for; `durable` says that events can be
    /// written down.
    pub open spec fn result(
        self,
        command: InstructionCommand,
        live: Seq<LiveInvocation>,
        durable: bool,
    ) -> InstructionCommandResult {
        match command {
            InstructionCommand::Add { pane, text, .. } => {
                let refused = InstructionCommandResult { id: 0, found: true, accepted: false };
                if !durable {
                    InstructionCommandResult {
                        id: 0,
                        found: pane_lives(live, pane),
                        accepted: false,
                    }
                } else {
                    match runs_in(live, pane) {
                        None => InstructionCommandResult {
                            id: 0,
                            found: pane_lives(live, pane),
                            accepted: false,
                        },
                        Some(pid) => if !is_instruction(text@, self.max_chars) || waiting_for(
                            self.items@,
                            pane,
                            pid,
                            self.items@.len(),
                        ) >= self.capacity {
                            refused
                        } else {
                            InstructionCommandResult {
                                id: self.next_id,
                                found: true,
                                accepted: true,
                            }
                        },
                    }
                }
            },
            InstructionCommand::Replace { id, text, .. } => match instruction_at(
                self.items@,
                id,
                0,
            ) {
                None => InstructionCommandResult { id, found: false, accepted: false },
                Some(i) => if !durable || !is_instruction(text@, self.max_chars) || runs_in(
                    live,
                    self.items@[i].pane,
                ) != Some(self.items@[i].invocation) {
                    InstructionCommandResult { id, found: true, accepted: false }
                } else {
                    InstructionCommandResult { id: self.next_id, found: true, accepted: true }
                },
            },
            InstructionCommand::Cancel { id } => {
                let found = instruction_at(self.items@, id, 0) is Some;
                InstructionCommandResult { id, found, accepted: found && durable }
            },
        }
    }

    /// The queue after a command that was accepted.
    pub open spec fn items_after(
        self,
        command: InstructionCommand,
        live: Seq<LiveInvocation>,
        sequence: u64,
    ) -> Seq<Instruction> {
        match command {
            InstructionCommand::Add { pane, author, text } => self.items@.push(
                Instruction {
                    id: self.next_id,
                    pane,
                    invocation: runs_in(live, pane)->0,
                    author,
                    created_sequence: sequence,
                    text,
                },
            ),
            InstructionCommand::Replace { id, author, text } => {
                let i = instruction_at(self.items@, id, 0)->0;
                self.items@.update(
                    i,
                    Instruction {
                        id: self.next_id,
                        author,
                        created_sequence: sequence,
                        text,
                        ..self.items@[i]
                    },
                )
            },
            InstructionCommand::Cancel { id } => self.items@.remove(
                instruction_at(self.items@, id, 0)->0,
            ),
        }
    }

    /// Carry out a command. A refused one changes nothing.
    pub fn instruction_command(
        &mut self,
        command: InstructionCommand,
        live: &Vec<LiveInvocation>,
        durable: bool,
        sequence: u64,
    ) -> (result: InstructionCommandResult)
        requires
            old(self).wf(),
            old(self).next_id < u64::MAX,
        ensures
            final(self).wf(),
            result == old(self).result(command, live@, durable),
            !result.accepted ==> *final(self) == *old(self),
            result.accepted ==> {
                &&& final(self).items@ == old(self).items_after(command, live@, sequence)
                &&& *final(self) == (InstructionQueue {
                    items: final(self).items,
                    next_id: if command is Cancel {
                        old(self).next_id
                    } else {
                        (old(self).next_id + 1) as u64
                    },
                    ..*old(self)
                })
            },
    {
        let ghost before = self.items@;
        match command {
            InstructionCommand::Add { pane, author, text } => {
                let found = is_live(live, pane);
                let pid: Option<i32> = running_in(live, pane);
                let Some(pid) = pid else {
                    return InstructionCommandResult { id: 0, found, accepted: false };
                };
                if !durable {
                    return InstructionCommandResult { id: 0, found, accepted: false };
                }
                if !usable(text.as_str(), self.max_chars) || self.count_for(pane, pid)
                    >= self.capacity {
                    return InstructionCommandResult { id: 0, found: true, accepted: false };
                }
                let id: u64 = self.next_id;
                self.items.push(
                    Instruction {
                        id,
                        pane,
                        invocation: pid,
                        author,
                        created_sequence: sequence,
                        text,
                    },
                );
                self.next_id = id + 1;
                InstructionCommandResult { id, found: true, accepted: true }
            },
            InstructionCommand::Replace { id, author, text } => {
                let Some(i) = self.find(id) else {
                    return InstructionCommandResult { id, found: false, accepted: false };
                };
                let current = match running_in(live, self.items[i].pane) {
                    Some(pid) => pid == self.items[i].invocation,
                    None => false,
                };
                if !durable || !usable(text.as_str(), self.max_chars) || !current {
                    return InstructionCommandResult { id, found: true, accepted: false };
                }
                let new_id: u64 = self.next_id;
                let item = Instruction {
                    id: new_id,
                    pane: self.items[i].pane,
                    invocation: self.items[i].invocation,
                    author,
                    created_sequence: sequence,
                    text,
                };
                self.items.set(i, item);
                self.next_id = new_id + 1;
                InstructionCommandResult { id: new_id, found: true, accepted: true }
            },
            InstructionCommand::Cancel { id } => {
                let Some(i) = self.find(id) else {
                    return InstructionCommandResult { id, found: false, accepted: false };
                };
                if !durable {
                    return InstructionCommandResult { id, found: true, accepted: false };
                }
                self.drop_at(i);
                InstructionCommandResult { id, found: true, accepted: true }
            },
        }
    }

    fn drop_at(&mut self, i: usize) -> (item: Instruction)
        requires
            old(self).wf(),
            i < old(self).items@.len(),
        ensures
            final(self).wf(),
            item == old(self).items@[i as int],
            final(self).items@ == old(self).items@.remove(i as int),
            *final(self) == (InstructionQueue { items: final(self).items, ..*old(self) }),
    {
        let ghost before = self.items@;
        let item = self.items.remove(i);
        proof {
            let after = self.items@;
            assert forall|a: int, b: int| 0 <= a < b < after.len() implies (#[trigger] after[a]).id
                != (#[trigger] after[b]).id by {
                let x = if a < i {
                    a
                } else {
                    a + 1
                };
                let y = if b < i {
                    b
                } else {
                    b + 1
                };
                assert(before[x].id != before[y].id);
            }
            assert forall|a: int| 0 <= a < after.len() implies (#[trigger] after[a]).id
                < self.next_id by {
                let x = if a < i {
                    a
                } else {
                    a + 1
                };
                assert(before[x].id < self.next_id);
            }
        }
        item
    }

    /// Begin to hand an instruction over. One whose process ended is dropped.
    pub fn begin_handover(&mut self, id: u64, live: &Vec<LiveInvocation>) -> (handover: Handover)
        requires
            old(self).wf(),
            old(self).next_delivery < u64::MAX,
        ensures
            final(self).wf(),
            old(self).handed(*final(self), id, live@, handover),
    {
        let Some(i) = self.find(id) else {
            return Handover::Missing;
        };
        let current = match running_in(live, self.items[i].pane) {
            Some(pid) => pid == self.items[i].invocation,
            None => false,
        };
        if !current {
            self.drop_at(i);
            return Handover::Ended;
        }
        let delivery_id: u64 = self.next_delivery;
        self.next_delivery = delivery_id + 1;
        Handover::Ready { pane: self.items[i].pane, text: self.items[i].text.clone(), delivery_id }
    }

    /// Begin to send an instruction without waiting for its agent. While events
    /// cannot be written down, nothing is sent.
    pub fn send_now(&mut self, id: u64, live: &Vec<LiveInvocation>, durable: bool) -> (sending:
        Sending)
        requires
            old(self).wf(),
            old(self).next_delivery < u64::MAX,
        ensures
            final(self).wf(),
            !durable ==> *final(self) == *old(self) && sending == (Sending::Refused {
                found: instruction_at(old(self).items@, id, 0) is Some,
            }),
            durable ==> {
                &&& sending matches Sending::Begun(handover)
                &&& old(self).handed(*final(self), id, live@, handover)
            },
    {
        if !durable {
            return Sending::Refused { found: self.find(id).is_some() };
        }
        Sending::Begun(self.begin_handover(id, live))
    }

    /// The agent in a Pane said that it is ready: drop what was meant for
    /// another process, and begin to hand over the first that waits. At most
    /// one goes out for each report, and none while events cannot be written
    /// down.
    pub fn deliver_cooperative_instruction(
        &mut self,
        pane: PaneId,
        live: &Vec<LiveInvocation>,
        durable: bool,
    ) -> (turn: ReadyTurn)
        requires
            old(self).wf(),
            old(self).next_delivery < u64::MAX,
        ensures
            final(self).wf(),
            !durable ==> *final(self) == *old(self) && turn.dropped@.len() == 0
                && turn.next is None,
            durable ==> {
                let pid = runs_in(live@, pane);
                let kept = old(self).items@.filter(still_meant(pane, pid));
                let first = match pid {
                    Some(process) => instruction_for(kept, pane, process, 0),
                    None => None,
                };
                &&& turn.dropped@ == ids_without(
                    old(self).items@,
                    still_meant(pane, pid),
                    old(self).items@.len(),
                )
                &&& final(self).items@ == kept
                &&& *final(self) == (InstructionQueue {
                    items: final(self).items,
                    next_delivery: if first is Some {
                        (old(self).next_delivery + 1) as u64
                    } else {
                        old(self).next_delivery
                    },
                    ..*old(self)
                })
                &&& turn.next == match first {
                    Some(i) => Some(
                        ReadyItem {
                            id: kept[i].id,
                            pane: kept[i].pane,
                            text: kept[i].text,
                            delivery_id: old(self).next_delivery,
                        },
                    ),
                    None => None,
                }
            },
    {
        if !durable {
            return ReadyTurn { dropped: Vec::new(), next: None };
        }
        let pid: Option<i32> = running_in(live, pane);
        let dropped = self.cancel_stale_instructions(pane, pid);
        let Some(process) = pid else {
            return ReadyTurn { dropped, next: None };
        };
        let Some(at) = self.find_for(pane, process) else {
            return ReadyTurn { dropped, next: None };
        };
        let delivery_id: u64 = self.next_delivery;
        self.next_delivery = delivery_id + 1;
        let item = &self.items[at];
        let next = ReadyItem {
            id: item.id,
            pane: item.pane,
            text: item.text.clone(),
            delivery_id,
        };
        ReadyTurn { dropped, next: Some(next) }
    }

    /// Take note of whether the Pane took the text; a refused instruction keeps
    /// its place.
    pub fn finish_handover(&mut self, id: u64, accepted: bool) -> (result: InstructionCommandResult)
        requires
            old(self).wf(),
        ensures
            final(self).wf(),
            result == (InstructionCommandResult {
                id,
                found: instruction_at(old(self).items@, id, 0) is Some,
                accepted: accepted && instruction_at(old(self).items@, id, 0) is Some,
            }),
            *final(self) == (InstructionQueue { items: final(self).items, ..*old(self) }),
            final(self).items@ == match instruction_at(old(self).items@, id, 0) {
                Some(i) => if accepted {
                    old(self).items@.remove(i)
                } else {
                    old(self).items@
                },
                None => old(self).items@,
            },
    {
        let Some(i) = self.find(id) else {
            return InstructionCommandResult { id, found: false, accepted: false };
        };
        if accepted {
            self.drop_at(i);
        }
        InstructionCommandResult { id, found: true, accepted }
    }

    /// The instruction to hand over when the agent in `pane` is ready: the
    /// first for its process.
    pub fn next_for(&self, pane: PaneId, pid: i32) -> (id: Option<u64>)
        ensures
            id == match instruction_for(self.items@, pane, pid, 0) {
                Some(i) => Some(self.items@[i].id),
                None => None,
            },
    {
        match self.find_for(pane, pid) {
            Some(i) => Some(self.items[i].id),
            None => None,
        }
    }

    fn find_for(&self, pane: PaneId, pid: i32) -> (found: Option<usize>)
        ensures
            crate::hierarchy::index_of(found) == instruction_for(self.items@, pane, pid, 0),
            found matches Some(i) ==> i < self.items@.len(),
    {
        let mut i: usize = 0;
        while i < self.items.len()
            invariant
                i <= self.items@.len(),
                instruction_for(self.items@, pane, pid, 0) == instruction_for(
                    self.items@,
                    pane,
                    pid,
                    i as int,
                ),
            decreases self.items@.len() - i,
        {
            if self.items[i].pane == pane && self.items[i].invocation == pid {
                return Some(i);
            }
            i += 1;
        }
        None
    }

    /// Drop the instructions for a Pane whose process ended; gives their ids.
    pub fn cancel_stale_instructions(&mut self, pane: PaneId, pid: Option<i32>) -> (ids: Vec<u64>)
        requires
            old(self).wf(),
        ensures
            final(self).wf(),
            ids@ == ids_without(
                old(self).items@,
                still_meant(pane, pid),
                old(self).items@.len(),
            ),
            final(self).items@ == old(self).items@.filter(still_meant(pane, pid)),
            *final(self) == (InstructionQueue { items: final(self).items, ..*old(self) }),
    {
        let ghost given = self.items@;
        let ghost keep = still_meant(pane, pid);
        let mut ids: Vec<u64> = Vec::new();
        let mut kept: Vec<Instruction> = Vec::new();
        let mut rest: Vec<Instruction> = Vec::new();
        std::mem::swap(&mut rest, &mut self.items);
        let ghost mut i: int = 0;
        proof {
            lemma_filter_none(given, keep);
        }
        assert(given.skip(0) =~= given);
        while rest.len() > 0
            invariant
                0 <= i <= given.len(),
                rest@ == given.skip(i),
                keep == still_meant(pane, pid),
                kept@ == given.take(i).filter(keep),
                ids@ == ids_without(given, keep, i as nat),
            decreases rest@.len(),
        {
            proof {
                lemma_filter_step(given, i, keep);
            }
            let one = rest.remove(0);
            assert(one == given[i]);
            assert(rest@ =~= given.skip(i + 1));
            let meant = match pid {
                Some(pid) => pid == one.invocation,
                None => false,
            };
            if one.pane != pane || meant {
                kept.push(one);
            } else {
                ids.push(one.id);
            }
            proof {
                i = i + 1;
            }
        }
        assert(given.take(i) =~= given);
        self.items = kept;
        proof {
            lemma_filtered_ids(given, keep, self.next_id);
        }
        ids
    }

    /// Drop every instruction for a Pane that closed; gives their ids.
    pub fn cancel_pane_instructions(&mut self, pane: PaneId) -> (ids: Vec<u64>)
        requires
            old(self).wf(),
        ensures
            final(self).wf(),
            ids@ == ids_without(old(self).items@, elsewhere(pane), old(self).items@.len()),
            final(self).items@ == old(self).items@.filter(elsewhere(pane)),
            *final(self) == (InstructionQueue { items: final(self).items, ..*old(self) }),
    {
        let ghost given = self.items@;
        let ghost keep = elsewhere(pane);
        let mut ids: Vec<u64> = Vec::new();
        let mut kept: Vec<Instruction> = Vec::new();
        let mut rest: Vec<Instruction> = Vec::new();
        std::mem::swap(&mut rest, &mut self.items);
        let ghost mut i: int = 0;
        proof {
            lemma_filter_none(given, keep);
        }
        assert(given.skip(0) =~= given);
        while rest.len() > 0
            invariant
                0 <= i <= given.len(),
                rest@ == given.skip(i),
                keep == elsewhere(pane),
                kept@ == given.take(i).filter(keep),
                ids@ == ids_without(given, keep, i as nat),
            decreases rest@.len(),
        {
            proof {
                lemma_filter_step(given, i, keep);
            }
            let one = rest.remove(0);
            assert(one == given[i]);
            assert(rest@ =~= given.skip(i + 1));
            if one.pane != pane {
                kept.push(one);
            } else {
                ids.push(one.id);
            }
            proof {
                i = i + 1;
            }
        }
        assert(given.take(i) =~= given);
        self.items = kept;
        proof {
            lemma_filtered_ids(given, keep, self.next_id);
        }
        ids
    }
}

proof fn lemma_filtered_ids(items: Seq<Instruction>, keep: spec_fn(Instruction) -> bool, next: u64)
    requires
        forall|i: int| 0 <= i < items.len() ==> (#[trigger] items[i]).id < next,
        forall|i: int, j: int|
            0 <= i < j < items.len() ==> (#[trigger] items[i]).id != (#[trigger] items[j]).id,
    ensures
        forall|i: int|
            0 <= i < items.filter(keep).len() ==> (#[trigger] items.filter(keep)[i]).id < next
                && items.contains(items.filter(keep)[i]),
        forall|i: int, j: int|
            0 <= i < j < items.filter(keep).len() ==> (#[trigger] items.filter(keep)[i]).id != (
            #[trigger] items.filter(keep)[j]).id,
    decreases items.len(),
{
    reveal(Seq::filter);
    if items.len() > 0 {
        let head = items.drop_last();
        let rest = head.filter(keep);
        let out = items.filter(keep);
        assert forall|i: int, j: int| 0 <= i < j < head.len() implies (#[trigger] head[i]).id != (
        #[trigger] head[j]).id by {
            assert(items[i].id != items[j].id);
        }
        assert forall|i: int| 0 <= i < head.len() implies (#[trigger] head[i]).id < next by {
            assert(items[i].id < next);
        }
        lemma_filtered_ids(head, keep, next);
        assert forall|i: int| 0 <= i < out.len() implies (#[trigger] out[i]).id < next
            && items.contains(out[i]) by {
            if i < rest.len() {
                assert(out[i] == rest[i]);
                assert(head.contains(rest[i]));
                let k = choose|k: int| 0 <= k < head.len() && head[k] == rest[i];
                assert(items[k] == out[i]);
            } else {
                assert(out[i] == items[items.len() - 1]);
            }
        }
        assert forall|i: int, j: int| 0 <= i < j < out.len() implies (#[trigger] out[i]).id != (
        #[trigger] out[j]).id by {
            if j < rest.len() {
                assert(out[i] == rest[i] && out[j] == rest[j]);
            } else {
                assert(out[i] == rest[i]);
                assert(head.contains(rest[i]));
                let k = choose|k: int| 0 <= k < head.len() && head[k] == rest[i];
                assert(items[k].id != items[items.len() - 1].id);
            }
        }
    }
}

/// Once stale instructions are dropped, everything that waits for a Pane is
/// meant for the process that runs there.
pub proof fn lemma_no_stale_left(items: Seq<Instruction>, pane: PaneId, pid: Option<i32>)
    ensures
        forall|i: int|
            0 <= i < items.filter(still_meant(pane, pid)).len() ==> ((
            #[trigger] items.filter(still_meant(pane, pid))[i]).pane == pane ==> pid == Some(
                items.filter(still_meant(pane, pid))[i].invocation,
            )),
    decreases items.len(),
{
    reveal(Seq::filter);
    if items.len() > 0 {
        lemma_no_stale_left(items.drop_last(), pane, pid);
        let keep = still_meant(pane, pid);
        let rest = items.drop_last().filter(keep);
        let out = items.filter(keep);
        assert forall|i: int| 0 <= i < out.len() && (#[trigger] out[i]).pane == pane implies pid
            == Some(out[i].invocation) by {
            if i < rest.len() {
                assert(out[i] == rest[i]);
            }
        }
    }
}

proof fn lemma_instruction_at(items: Seq<Instruction>, id: u64, i: int)
    requires
        0 <= i,
    ensures
        instruction_at(items, id, i) matches Some(k) ==> i <= k < items.len() && items[k].id == id,
        instruction_at(items, id, i) is None ==> forall|k: int|
            i <= k < items.len() ==> (#[trigger] items[k]).id != id,
    decreases items.len() - i,
{
    if i < items.len() && items[i].id != id {
        lemma_instruction_at(items, id, i + 1);
    }
}

proof fn lemma_instruction_for(items: Seq<Instruction>, pane: PaneId, pid: i32, i: int)
    requires
        0 <= i,
    ensures
        instruction_for(items, pane, pid, i) matches Some(k) ==> {
            &&& i <= k < items.len()
            &&& items[k].pane == pane
            &&& items[k].invocation == pid
            &&& forall|j: int|
                i <= j < k ==> !((#[trigger] items[j]).pane == pane && items[j].invocation == pid)
        },
        instruction_for(items, pane, pid, i) is None ==> forall|k: int|
            i <= k < items.len() ==> !((#[trigger] items[k]).pane == pane && items[k].invocation
                == pid),
    decreases items.len() - i,
{
    if i < items.len() && !(items[i].pane == pane && items[i].invocation == pid) {
        lemma_instruction_for(items, pane, pid, i + 1);
    }
}

/// A replaced instruction says what the replacement says. It has a new id and
/// keeps its place, its Pane and its process; the old id is gone, and whoever is
/// handed the new one is handed the new text.
pub proof fn lemma_replacement_is_what_is_handed_over(
    before: InstructionQueue,
    after: InstructionQueue,
    id: u64,
    author: InstructionAuthor,
    text: String,
    live: Seq<LiveInvocation>,
    durable: bool,
    sequence: u64,
    handed: InstructionQueue,
    handover: Handover,
)
    requires
        before.wf(),
        after.wf(),
        before.next_id < u64::MAX,
        before.result(InstructionCommand::Replace { id, author, text }, live, durable).accepted,
        after.items@ == before.items_after(
            InstructionCommand::Replace { id, author, text },
            live,
            sequence,
        ),
        after.handed(
            handed,
            before.result(InstructionCommand::Replace { id, author, text }, live, durable).id,
            live,
            handover,
        ),
    ensures
        ({
            let result = before.result(
                InstructionCommand::Replace { id, author, text },
                live,
                durable,
            );
            &&& durable
            &&& result.found
            &&& result.id != id
            &&& after.items@.len() == before.items@.len()
            &&& forall|k: int| 0 <= k < after.items@.len() ==> (#[trigger] after.items@[k]).id != id
            &&& exists|k: int|
                {
                    &&& 0 <= k < before.items@.len()
                    &&& #[trigger] before.items@[k].id == id
                    &&& after.items@[k].id == result.id
                    &&& after.items@[k].text == text
                    &&& after.items@[k].author == author
                    &&& after.items@[k].created_sequence == sequence
                    &&& after.items@[k].pane == before.items@[k].pane
                    &&& after.items@[k].invocation == before.items@[k].invocation
                    &&& handover matches Handover::Ready { pane, text: said, .. } && pane
                        == before.items@[k].pane && said == text
                    &&& forall|j: int|
                        0 <= j < before.items@.len() && j != k ==> #[trigger] after.items@[j]
                            == before.items@[j]
                }
        }),
{
    let result = before.result(InstructionCommand::Replace { id, author, text }, live, durable);
    lemma_instruction_at(before.items@, id, 0);
    let k = instruction_at(before.items@, id, 0)->0;
    assert(before.items@[k].id == id);
    assert(id < before.next_id);
    lemma_instruction_at(after.items@, result.id, 0);
    assert(after.items@[k].id == result.id);
    let at = instruction_at(after.items@, result.id, 0);
    assert(at is Some);
    assert(at->0 == k) by {
        if at->0 != k {
            assert(after.items@[at->0].id == after.items@[k].id);
        }
    }
    assert forall|j: int| 0 <= j < after.items@.len() implies (#[trigger] after.items@[j]).id
        != id by {
        if j != k {
            assert(after.items@[j] == before.items@[j]);
            assert(before.items@[j].id != before.items@[k].id);
        }
    }
}

/// An instruction that was taken waits last, under a new id, with the words and
/// the author that it came with, for the process that runs in its Pane; whoever
/// is handed it is handed those words.
pub proof fn lemma_added_instruction_is_what_is_handed_over(
    before: InstructionQueue,
    after: InstructionQueue,
    pane: PaneId,
    author: InstructionAuthor,
    text: String,
    live: Seq<LiveInvocation>,
    durable: bool,
    sequence: u64,
    handed: InstructionQueue,
    handover: Handover,
)
    requires
        before.wf(),
        after.wf(),
        before.next_id < u64::MAX,
        before.result(InstructionCommand::Add { pane, author, text }, live, durable).accepted,
        after.items@ == before.items_after(
            InstructionCommand::Add { pane, author, text },
            live,
            sequence,
        ),
        after.handed(
            handed,
            before.result(InstructionCommand::Add { pane, author, text }, live, durable).id,
            live,
            handover,
        ),
    ensures
        ({
            let result = before.result(InstructionCommand::Add { pane, author, text }, live, durable);
            let item = after.items@.last();
            &&& durable
            &&& result.found
            &&& after.items@.len() == before.items@.len() + 1
            &&& after.items@.drop_last() == before.items@
            &&& item.id == result.id
            &&& item.text == text
            &&& item.author == author
            &&& item.pane == pane
            &&& item.created_sequence == sequence
            &&& exists|i: int|
                0 <= i < live.len() && (#[trigger] live[i]).pane == pane && live[i].pid == Some(
                    item.invocation,
                )
            &&& forall|k: int|
                0 <= k < before.items@.len() ==> (#[trigger] before.items@[k]).id != result.id
            &&& text@.len() <= before.max_chars
            &&& handover matches Handover::Ready { pane: p, text: said, .. } && p == pane && said
                == text
        }),
{
    let result = before.result(InstructionCommand::Add { pane, author, text }, live, durable);
    assert(after.items@.drop_last() =~= before.items@);
    lemma_instruction_at(after.items@, result.id, 0);
    let last = after.items@.len() - 1;
    assert(after.items@[last].id == result.id);
    let at = instruction_at(after.items@, result.id, 0);
    assert(at is Some);
    if at->0 != last {
        assert(after.items@[at->0].id != after.items@[last].id);
    }
    lemma_running(live, pane, 0);
}

proof fn lemma_running(live: Seq<LiveInvocation>, pane: PaneId, from: int)
    requires
        0 <= from,
    ensures
        crate::checkpoint::invocation_in(live, pane, from) matches Some(pid) ==> exists|i: int|
            from <= i < live.len() && (#[trigger] live[i]).pane == pane && live[i].pid == Some(pid),
    decreases live.len() - from,
{
    if from < live.len() && live[from].pane != pane {
        lemma_running(live, pane, from + 1);
    }
}

/// Of the instructions that wait for a process, the one that was given first is
/// handed over first; a canceled one is not handed over at all, and the others
/// keep their order.
pub proof fn lemma_first_given_is_first_handed_over(queue: InstructionQueue, pane: PaneId, pid: i32)
    ensures
        instruction_for(queue.items@, pane, pid, 0) matches Some(k) ==> {
            &&& 0 <= k < queue.items@.len()
            &&& queue.items@[k].pane == pane
            &&& queue.items@[k].invocation == pid
            &&& forall|j: int|
                0 <= j < k ==> !((#[trigger] queue.items@[j]).pane == pane
                    && queue.items@[j].invocation == pid)
        },
        instruction_for(queue.items@, pane, pid, 0) is None ==> forall|k: int|
            0 <= k < queue.items@.len() ==> !((#[trigger] queue.items@[k]).pane == pane
                && queue.items@[k].invocation == pid),
{
    lemma_instruction_for(queue.items@, pane, pid, 0);
}

/// A canceled instruction is gone, and every other stays as it was; nothing can
/// be handed over under its id any more.
pub proof fn lemma_canceled_instruction_is_gone(
    before: InstructionQueue,
    after: InstructionQueue,
    id: u64,
    live: Seq<LiveInvocation>,
    durable: bool,
    sequence: u64,
    handed: InstructionQueue,
    handover: Handover,
)
    requires
        before.wf(),
        before.result(InstructionCommand::Cancel { id }, live, durable).accepted,
        after.items@ == before.items_after(InstructionCommand::Cancel { id }, live, sequence),
        after.handed(handed, id, live, handover),
    ensures
        durable,
        after.items@.len() == before.items@.len() - 1,
        forall|k: int| 0 <= k < after.items@.len() ==> (#[trigger] after.items@[k]).id != id,
        forall|k: int|
            0 <= k < before.items@.len() && (#[trigger] before.items@[k]).id != id
                ==> after.items@.contains(before.items@[k]),
        handover is Missing,
{
    lemma_instruction_at(before.items@, id, 0);
    let at = instruction_at(before.items@, id, 0)->0;
    assert(before.items@[at].id == id);
    assert forall|k: int| 0 <= k < after.items@.len() implies (#[trigger] after.items@[k]).id
        != id by {
        let was = if k < at {
            k
        } else {
            k + 1
        };
        assert(after.items@[k] == before.items@[was]);
        assert(before.items@[was].id != before.items@[at].id);
    }
    assert forall|k: int| 0 <= k < before.items@.len() && (#[trigger] before.items@[k]).id
        != id implies after.items@.contains(before.items@[k]) by {
        let now_at = if k < at {
            k
        } else {
            k - 1
        };
        assert(after.items@[now_at] == before.items@[k]);
    }
    lemma_instruction_at(after.items@, id, 0);
}

/// An instruction is accepted exactly where it says something, is not too long,
/// and its agent runs: a new one where the process has room for another, and a
/// replacement where the process that it was meant for still runs.
pub proof fn lemma_what_is_accepted(
    queue: InstructionQueue,
    pane: PaneId,
    id: u64,
    author: InstructionAuthor,
    text: String,
    live: Seq<LiveInvocation>,
    at: int,
)
    requires
        0 <= at < queue.items@.len(),
        queue.wf(),
        queue.items@[at].id == id,
    ensures
        queue.result(InstructionCommand::Replace { id, author, text }, live, true).accepted
            <==> crate::text::trimmed(text@).len() > 0 && text@.len() <= queue.max_chars
            && runs_in(live, queue.items@[at].pane) == Some(queue.items@[at].invocation),
        queue.result(InstructionCommand::Add { pane, author, text }, live, true).accepted ==> {
            &&& crate::text::trimmed(text@).len() > 0
            &&& runs_in(live, pane) is Some
            &&& waiting_for(queue.items@, pane, runs_in(live, pane)->0, queue.items@.len())
                < queue.capacity
        },
        queue.result(InstructionCommand::Cancel { id }, live, true).accepted,
        !queue.result(InstructionCommand::Cancel { id }, live, false).accepted,
        !queue.result(InstructionCommand::Replace { id, author, text }, live, false).accepted,
        !queue.result(InstructionCommand::Add { pane, author, text }, live, false).accepted,
{
    lemma_instruction_at(queue.items@, id, 0);
    let k = instruction_at(queue.items@, id, 0)->0;
    if k != at {
        assert(queue.items@[k].id != queue.items@[at].id);
    }
}

} // verus!
