//! Decisions of the readiness loop: how much to read from a source in one turn,
//! what input a Pane accepts, and which clients are let in.
use crate::queue::{push_bytes, WriteOutcome, MAX_PENDING_INPUT};
use crate::types::Token;
use vstd::prelude::*;

verus! {

/// Bytes one source may deliver per readiness event before the loop moves on.
pub const PTY_IO_BUDGET: usize = 262_144;

/// The most clients at a time.
pub const MAX_CLIENTS: usize = 128;

/// The most connections accepted per readiness event.
pub const MAX_ACCEPTS_PER_EVENT: usize = 64;

/// The most messages one client may deliver per readiness event.
pub const MAX_CLIENT_MESSAGES_PER_EVENT: usize = 1024;

/// Whether a Pane that holds `pending` bytes of unread input can take
/// `incoming` more.
pub fn pane_input_has_capacity(pending: usize, incoming: usize) -> (fits: bool)
    ensures
        fits == (pending + incoming <= MAX_PENDING_INPUT),
{
    pending.saturating_add(incoming) <= MAX_PENDING_INPUT
}

/// The input that waits to be written to one Pane's PTY.
#[derive(Debug)]
pub struct PaneInput {
    input: Vec<u8>,
    offset: usize,
}

impl View for PaneInput {
    type V = Seq<u8>;

    closed spec fn view(&self) -> Seq<u8> {
        self.input@.skip(self.offset as int)
    }
}

/// No Pane is made to hold more unread input than the bound.
pub proof fn lemma_input_bounded(input: PaneInput)
    requires
        input.wf(),
    ensures
        input@.len() <= MAX_PENDING_INPUT,
{
}

impl PaneInput {
    /// The representation is sound, and what waits fits the bound.
    pub closed spec fn wf(self) -> bool {
        &&& self.offset <= self.input@.len()
        &&& self@.len() <= MAX_PENDING_INPUT
    }

    /// What waits after one write attempt.
    pub open spec fn after_write(pending: Seq<u8>, outcome: WriteOutcome) -> Seq<u8> {
        match outcome {
            WriteOutcome::Wrote(n) => pending.skip(n as int),
            WriteOutcome::Failed => Seq::empty(),
            _ => pending,
        }
    }

    pub fn new() -> (input: PaneInput)
        ensures
            input.wf(),
            input@ == Seq::<u8>::empty(),
    {
        let input = PaneInput { input: Vec::new(), offset: 0 };
        assert(input@ =~= Seq::<u8>::empty());
        input
    }

    /// Queue input for the PTY. Input that does not fit is refused whole: a
    /// silent drop would corrupt any script that sends and then waits.
    pub fn queue(&mut self, bytes: &[u8]) -> (accepted: bool)
        requires
            old(self).wf(),
        ensures
            final(self).wf(),
            accepted == (old(self)@.len() + bytes@.len() <= MAX_PENDING_INPUT),
            final(self)@ == if accepted {
                old(self)@ + bytes@
            } else {
                old(self)@
            },
    {
        let pending: usize = self.input.len() - self.offset;
        if !pane_input_has_capacity(pending, bytes.len()) {
            return false;
        }
        if self.offset != 0 {
            let tail = self.input.split_off(self.offset);
            self.input = tail;
            self.offset = 0;
        }
        push_bytes(&mut self.input, bytes);
        assert(self@ =~= old(self)@ + bytes@);
        true
    }

    /// The bytes to offer to the PTY next.
    pub fn unsent(&self) -> (bytes: &[u8])
        requires
            self.wf(),
        ensures
            bytes@ == self@,
    {
        let (_, rest) = self.input.as_slice().split_at(self.offset);
        assert(rest@ =~= self@);
        rest
    }

    /// Take note of one write attempt; whether to try again at once.
    pub fn accept_write(&mut self, outcome: WriteOutcome) -> (again: bool)
        requires
            old(self).wf(),
            outcome matches WriteOutcome::Wrote(n) ==> n <= old(self)@.len(),
        ensures
            final(self).wf(),
            final(self)@ == PaneInput::after_write(old(self)@, outcome),
            again == (final(self)@.len() > 0 && (match outcome {
                WriteOutcome::Wrote(n) => n > 0,
                WriteOutcome::Interrupted => true,
                _ => false,
            })),
    {
        let ghost before = self@;
        let retry = match outcome {
            WriteOutcome::Wrote(n) => {
                assert(self.offset + n <= self.input.len());
                self.offset += n;
                assert(self@ =~= before.skip(n as int));
                n > 0
            },
            WriteOutcome::Interrupted => true,
            WriteOutcome::WouldBlock => false,
            WriteOutcome::Failed => {
                self.input.clear();
                self.offset = 0;
                assert(self@ =~= Seq::<u8>::empty());
                false
            },
        };
        if self.offset == self.input.len() {
            self.input.clear();
            self.offset = 0;
            assert(self@ =~= Seq::<u8>::empty());
            assert(PaneInput::after_write(before, outcome) =~= Seq::<u8>::empty());
        }
        retry && self.offset < self.input.len()
    }

    /// Whether the PTY must be watched for writability.
    pub fn wants_write(&self) -> (wants: bool)
        requires
            self.wf(),
        ensures
            wants == (self@.len() > 0),
    {
        self.offset < self.input.len()
    }
}

/// Input that was accepted reaches the PTY in order: whatever a queued Pane
/// writes next comes from the front of what waited.
pub proof fn lemma_input_in_order(pending: Seq<u8>, bytes: Seq<u8>, n: usize)
    requires
        n <= (pending + bytes).len(),
    ensures
        (pending + bytes).take(n as int) + PaneInput::after_write(
            pending + bytes,
            WriteOutcome::Wrote(n),
        ) == pending + bytes,
{
    let all = pending + bytes;
    assert(all.take(n as int) + all.skip(n as int) =~= all);
}

/// What one read attempt did.
#[derive(Clone, Copy, Debug, PartialEq, Eq, Structural)]
pub enum ReadOutcome {
    /// This many bytes came.
    Data(usize),
    /// The other side closed.
    Eof,
    WouldBlock,
    Interrupted,
    Failed,
}

/// How a turn of reads ended, or that it goes on.
#[derive(Clone, Copy, Debug, PartialEq, Eq, Structural)]
pub enum ReadStep {
    /// Read once more.
    Again,
    /// Nothing more is there now.
    Drained,
    /// The source is finished.
    Closed,
    /// The budget is spent: read again before the next blocking poll.
    Spent,
}

/// One source's turn of reads.
#[derive(Debug)]
pub struct ReadTurn {
    pub read: usize,
}

impl ReadTurn {
    pub fn new() -> (turn: ReadTurn)
        ensures
            turn.read == 0,
    {
        ReadTurn { read: 0 }
    }

    /// Take note of one read attempt and decide how to go on. A turn ends at
    /// the first read that reaches the budget, so that a fast source cannot
    /// starve the others.
    pub fn step(&mut self, outcome: ReadOutcome) -> (next: ReadStep)
        requires
            old(self).read < PTY_IO_BUDGET,
            outcome matches ReadOutcome::Data(n) ==> n <= usize::MAX - PTY_IO_BUDGET,
        ensures
            final(self).read == old(self).read + if let ReadOutcome::Data(n) = outcome {
                n as int
            } else {
                0
            },
            next == match outcome {
                ReadOutcome::Data(_) => if final(self).read >= PTY_IO_BUDGET {
                    ReadStep::Spent
                } else {
                    ReadStep::Again
                },
                ReadOutcome::Interrupted => ReadStep::Again,
                ReadOutcome::WouldBlock => ReadStep::Drained,
                ReadOutcome::Eof | ReadOutcome::Failed => ReadStep::Closed,
            },
    {
        match outcome {
            ReadOutcome::Data(n) => {
                self.read += n;
                if self.read >= PTY_IO_BUDGET {
                    ReadStep::Spent
                } else {
                    ReadStep::Again
                }
            },
            ReadOutcome::Interrupted => ReadStep::Again,
            ReadOutcome::WouldBlock => ReadStep::Drained,
            ReadOutcome::Eof => ReadStep::Closed,
            ReadOutcome::Failed => ReadStep::Closed,
        }
    }
}

/// The sources that still had bytes when their turn ended.
#[derive(Debug)]
pub struct PendingReads {
    pub tokens: Vec<Token>,
}

impl PendingReads {
    /// Whether to read a source now. While the runtime is backed up, a readable
    /// edge is kept for later instead, once per source.
    pub fn runtime_read_ready(&mut self, token: Token, readable: bool, backpressured: bool) -> (ready:
        bool)
        ensures
            ready == (readable && !backpressured),
            final(self).tokens@ == if readable && backpressured && !old(self).tokens@.contains(
                token,
            ) {
                old(self).tokens@.push(token)
            } else {
                old(self).tokens@
            },
    {
        if readable && backpressured {
            let mut known = false;
            let mut i: usize = 0;
            while i < self.tokens.len()
                invariant
                    i <= self.tokens@.len(),
                    self.tokens@ == old(self).tokens@,
                    known == self.tokens@.take(i as int).contains(token),
                decreases self.tokens@.len() - i,
            {
                proof {
                    let before = self.tokens@.take(i as int);
                    let after = self.tokens@.take(i + 1);
                    assert(after =~= before.push(self.tokens@[i as int]));
                    if before.contains(token) {
                        let k = choose|k: int| 0 <= k < before.len() && before[k] == token;
                        assert(after[k] == token);
                    }
                    if self.tokens@[i as int] == token {
                        assert(after[i as int] == token);
                    }
                }
                if self.tokens[i] == token {
                    known = true;
                }
                i += 1;
            }
            assert(self.tokens@.take(i as int) =~= self.tokens@);
            if !known {
                self.tokens.push(token);
            }
            false
        } else {
            readable
        }
    }

    /// Keep a source whose budget ran out.
    pub fn defer(&mut self, token: Token)
        ensures
            final(self).tokens@ == old(self).tokens@.push(token),
    {
        self.tokens.push(token);
    }

    /// The sources to read before the next blocking poll, in arrival order.
    /// None while the runtime is backed up.
    pub fn service_pending_reads(&mut self, backpressured: bool) -> (turn: Vec<Token>)
        ensures
            turn@ == if backpressured {
                Seq::<Token>::empty()
            } else {
                old(self).tokens@
            },
            final(self).tokens@ == if backpressured {
                old(self).tokens@
            } else {
                Seq::<Token>::empty()
            },
    {
        let mut turn: Vec<Token> = Vec::new();
        if !backpressured {
            std::mem::swap(&mut turn, &mut self.tokens);
        }
        turn
    }
}

} // verus!
