//! Byte queues in front of sockets and PTYs.
//!
//! The queues decide what is kept, what is dropped and when a repaint is owed.
//! The host performs the writes and reports what became of each.
use vstd::prelude::*;

verus! {

/// The most unread input one Pane may hold.
pub const MAX_PENDING_INPUT: usize = 8_388_608;

/// What one write attempt did.
#[derive(Clone, Copy, Debug, PartialEq, Eq, Structural)]
pub enum WriteOutcome {
    /// This many bytes were taken.
    Wrote(usize),
    WouldBlock,
    Interrupted,
    Failed,
}

/// Append bytes to a buffer.
pub(crate) fn push_bytes(buf: &mut Vec<u8>, bytes: &[u8])
    ensures
        final(buf)@ == old(buf)@ + bytes@,
{
    buf.extend_from_slice(bytes);
    assert(buf@ =~= old(buf)@ + bytes@);
}

/// Remove the first `n` bytes of a buffer.
fn drop_front(buf: &mut Vec<u8>, n: usize)
    requires
        n <= old(buf)@.len(),
    ensures
        final(buf)@ == old(buf)@.skip(n as int),
{
    let tail = buf.split_off(n);
    *buf = tail;
    assert(buf@ =~= old(buf)@.skip(n as int));
}

/// The outbound queue of one client.
#[derive(Debug)]
pub struct ClientQueue {
    outbuf: Vec<u8>,
    out_offset: usize,
    /// One past the last byte of the queued render frame, while one is pending.
    /// Ordinary protocol replies must not make a later render look superseded.
    render_end: Option<usize>,
    dead: bool,
    /// A render was superseded while an older one drained, so one full repaint
    /// is owed.
    repaint_pending: bool,
    /// Whether the poller watches the stream for writability.
    write_interest: bool,
    /// The frame to show before the owed repaint, kept from a Pane that closed.
    final_frame: Option<Vec<u8>>,
    /// The most bytes that may wait.
    limit: usize,
}

/// The abstract value of a `ClientQueue`.
#[verifier::ext_equal]
pub struct QueueState {
    /// The bytes that wait, in order.
    pub pending: Seq<u8>,
    /// How many of them belong to or precede the pending render frame.
    pub render: Option<int>,
    pub dead: bool,
    pub repaint_pending: bool,
    pub write_interest: bool,
    pub final_frame: Option<Seq<u8>>,
    pub limit: int,
}

impl View for ClientQueue {
    type V = QueueState;

    closed spec fn view(&self) -> QueueState {
        QueueState {
            pending: self.outbuf@.skip(self.out_offset as int),
            render: match self.render_end {
                Some(end) => Some(end - self.out_offset),
                None => None,
            },
            dead: self.dead,
            repaint_pending: self.repaint_pending,
            write_interest: self.write_interest,
            final_frame: match self.final_frame {
                Some(frame) => Some(frame@),
                None => None,
            },
            limit: self.limit as int,
        }
    }
}

impl QueueState {
    /// The queue of a client that just connected.
    pub open spec fn fresh(limit: int) -> QueueState {
        QueueState {
            pending: Seq::empty(),
            render: None,
            dead: false,
            repaint_pending: false,
            write_interest: false,
            final_frame: None,
            limit,
        }
    }

    /// The queue of a client that is given up.
    pub open spec fn gone(self) -> QueueState {
        QueueState { pending: Seq::empty(), render: None, dead: true, ..self }
    }

    /// The queue after a protocol message was offered.
    pub open spec fn queued(self, bytes: Seq<u8>) -> QueueState {
        if self.dead {
            self
        } else if self.pending.len() + bytes.len() > self.limit {
            self.gone()
        } else {
            QueueState { pending: self.pending + bytes, ..self }
        }
    }

    /// The queue after a render frame was offered.
    pub open spec fn rendered(self, bytes: Seq<u8>) -> QueueState {
        if self.dead {
            self
        } else if self.render is Some {
            QueueState { repaint_pending: true, ..self }
        } else {
            let next = self.queued(bytes);
            if next.dead {
                next
            } else {
                QueueState { render: Some(next.pending.len() as int), ..next }
            }
        }
    }

    /// The queue after a burst of render frames was offered.
    pub open spec fn rendered_all(self, frames: Seq<Seq<u8>>) -> QueueState
        decreases frames.len(),
    {
        if frames.len() == 0 {
            self
        } else {
            self.rendered_all(frames.drop_last()).rendered(frames.last())
        }
    }

    /// The queue once nothing waits any more.
    pub open spec fn settled(self) -> QueueState {
        if self.pending.len() == 0 {
            QueueState { render: None, ..self }
        } else {
            self
        }
    }

    /// The queue after one write attempt.
    pub open spec fn written(self, outcome: WriteOutcome) -> QueueState {
        match outcome {
            WriteOutcome::Wrote(n) => if n == 0 {
                self.gone()
            } else {
                (QueueState {
                    pending: self.pending.skip(n as int),
                    render: match self.render {
                        Some(end) => if n >= end {
                            None
                        } else {
                            Some(end - n)
                        },
                        None => None,
                    },
                    ..self
                }).settled()
            },
            WriteOutcome::WouldBlock => self.settled(),
            WriteOutcome::Interrupted => self,
            WriteOutcome::Failed => self.gone(),
        }
    }

    /// Something waits to be written.
    pub open spec fn wants_write(self) -> bool {
        !self.dead && self.pending.len() > 0
    }

    /// The bounds of every queue: what waits fits the limit, a pending render
    /// lies within it, and a dead client holds nothing.
    pub open spec fn wf(self) -> bool {
        &&& self.pending.len() <= self.limit
        &&& self.render matches Some(end) ==> 0 <= end <= self.pending.len()
        &&& self.dead ==> self.pending.len() == 0 && self.render is None
    }
}

/// No client is made to hold more than its limit, and one that was given up
/// holds nothing.
pub proof fn lemma_queue_bounded(queue: ClientQueue)
    requires
        queue.wf(),
    ensures
        queue@.wf(),
        queue@.pending.len() <= queue@.limit,
        queue@.dead ==> queue@.pending.len() == 0,
{
}

/// What a drained client is owed.
#[derive(Debug)]
pub enum DrainAction {
    Nothing,
    /// Show the last output of a Pane that closed meanwhile.
    FinalFrame(Vec<u8>),
    /// Paint the whole screen afresh.
    Repaint,
}

impl ClientQueue {
    /// The representation is sound.
    pub closed spec fn wf(self) -> bool {
        &&& self.out_offset <= self.outbuf@.len()
        &&& self.limit < usize::MAX
        &&& self@.wf()
        &&& self.render_end == Some(self.out_offset) ==> self.out_offset == 0
    }

    pub fn new(limit: usize) -> (queue: ClientQueue)
        requires
            limit < usize::MAX,
        ensures
            queue.wf(),
            queue@ == QueueState::fresh(limit as int),
    {
        let queue = ClientQueue {
            outbuf: Vec::new(),
            out_offset: 0,
            render_end: None,
            dead: false,
            repaint_pending: false,
            write_interest: false,
            final_frame: None,
            limit,
        };
        assert(queue@ =~= QueueState::fresh(limit as int));
        queue
    }

    fn give_up(&mut self)
        requires
            old(self).wf(),
        ensures
            final(self).wf(),
            final(self)@ == old(self)@.gone(),
    {
        self.outbuf.clear();
        self.out_offset = 0;
        self.render_end = None;
        self.dead = true;
        assert(self@ =~= old(self)@.gone());
    }

    /// Queue a protocol message. A client that would have to hold more than its
    /// limit is given up; whether that happened, so that the stream is shut.
    pub fn queue(&mut self, bytes: &[u8]) -> (shut: bool)
        requires
            old(self).wf(),
        ensures
            final(self).wf(),
            final(self)@ == old(self)@.queued(bytes@),
            shut == (final(self)@.dead && !old(self)@.dead),
    {
        self.enqueue(bytes)
    }

    fn enqueue(&mut self, bytes: &[u8]) -> (shut: bool)
        requires
            old(self).wf(),
        ensures
            final(self).wf(),
            final(self)@ == old(self)@.queued(bytes@),
            shut == (final(self)@.dead && !old(self)@.dead),
            !final(self).dead ==> final(self).out_offset == 0,
    {
        if self.dead {
            return false;
        }
        let pending: usize = self.outbuf.len() - self.out_offset;
        if pending.saturating_add(bytes.len()) > self.limit {
            self.give_up();
            return true;
        }
        if self.out_offset != 0 {
            let drained: usize = self.out_offset;
            drop_front(&mut self.outbuf, drained);
            self.render_end = match self.render_end {
                Some(end) => Some(end - drained),
                None => None,
            };
            self.out_offset = 0;
        }
        push_bytes(&mut self.outbuf, bytes);
        assert(self@.pending =~= old(self)@.pending + bytes@);
        assert(self@ =~= old(self)@.queued(bytes@));
        false
    }

    /// Queue terminal render output. While an older frame still drains, later
    /// ones collapse into one repaint, so that a burst cannot evict a client
    /// that is merely slow.
    pub fn queue_render(&mut self, bytes: &[u8]) -> (shut: bool)
        requires
            old(self).wf(),
        ensures
            final(self).wf(),
            final(self)@ == old(self)@.rendered(bytes@),
            shut == (final(self)@.dead && !old(self)@.dead),
    {
        if self.dead {
            return false;
        }
        if self.render_end.is_some() {
            self.repaint_pending = true;
            assert(self@ =~= old(self)@.rendered(bytes@));
            return false;
        }
        let shut = self.enqueue(bytes);
        if !self.dead {
            let ghost mid = self@;
            self.render_end = Some(self.outbuf.len());
            proof {
                lemma_end_of_queue(*self, mid);
            }
            assert(self@ =~= old(self)@.rendered(bytes@));
        }
        shut
    }

    /// Whether a render frame waits to be written.
    pub fn holds_render(&self) -> (holds: bool)
        ensures
            holds == (self@.render is Some),
    {
        self.render_end.is_some()
    }

    /// Whether an ordinary flush may write: once render output was superseded,
    /// only a writable readiness event may drain the older frame.
    pub fn may_flush(&self) -> (may: bool)
        ensures
            may == !self@.repaint_pending,
    {
        !self.repaint_pending
    }

    /// The bytes to offer to the stream next.
    pub fn unsent(&self) -> (bytes: &[u8])
        requires
            self.wf(),
        ensures
            bytes@ == self@.pending,
    {
        let (_, rest) = self.outbuf.as_slice().split_at(self.out_offset);
        assert(rest@ =~= self@.pending);
        rest
    }

    /// Take note of one write attempt; whether to try again at once.
    pub fn accept_write(&mut self, outcome: WriteOutcome) -> (again: bool)
        requires
            old(self).wf(),
            outcome matches WriteOutcome::Wrote(n) ==> n <= old(self)@.pending.len(),
        ensures
            final(self).wf(),
            final(self)@ == old(self)@.written(outcome),
            again == (final(self)@.wants_write() && (outcome is Wrote || outcome is Interrupted)),
    {
        let ghost s = self@;
        match outcome {
            WriteOutcome::Wrote(n) => {
                if n == 0 {
                    self.give_up();
                    return false;
                }
                assert(self.out_offset + n <= self.outbuf.len());
                self.out_offset += n;
                if let Some(end) = self.render_end {
                    if self.out_offset >= end {
                        self.render_end = None;
                    }
                }
                assert(self@.pending =~= s.pending.skip(n as int));
            },
            WriteOutcome::WouldBlock => {},
            WriteOutcome::Interrupted => {
                return self.wants_write();
            },
            WriteOutcome::Failed => {
                self.give_up();
                return false;
            },
        }
        if self.out_offset == self.outbuf.len() {
            self.outbuf.clear();
            self.out_offset = 0;
            self.render_end = None;
            assert(self@.pending =~= Seq::<u8>::empty());
        }
        assert(self@ =~= s.written(outcome));
        matches!(outcome, WriteOutcome::Wrote(_)) && self.wants_write()
    }

    /// Whether anything waits to be written.
    pub fn wants_write(&self) -> (wants: bool)
        requires
            self.wf(),
        ensures
            wants == self@.wants_write(),
    {
        !self.dead && self.out_offset < self.outbuf.len()
    }

    /// Whether the client was given up.
    pub fn is_dead(&self) -> (dead: bool)
        ensures
            dead == self@.dead,
    {
        self.dead
    }

    /// The writability interest to register, where it changed. Registering an
    /// unchanged interest again could strand a read edge.
    pub fn interest_change(&self) -> (change: Option<bool>)
        requires
            self.wf(),
        ensures
            change == if self@.wants_write() == self@.write_interest {
                None
            } else {
                Some(self@.wants_write())
            },
    {
        let want = self.wants_write();
        if want == self.write_interest {
            None
        } else {
            Some(want)
        }
    }

    /// Record the interest that was registered.
    pub fn interest_registered(&mut self, writable: bool)
        requires
            old(self).wf(),
        ensures
            final(self).wf(),
            final(self)@ == (QueueState { write_interest: writable, ..old(self)@ }),
    {
        self.write_interest = writable;
        assert(self@ =~= (QueueState { write_interest: writable, ..old(self)@ }));
    }

    /// Keep `frame` for a client that is owed a repaint.
    pub fn stash_final_frame(&mut self, frame: Vec<u8>)
        requires
            old(self).wf(),
        ensures
            final(self).wf(),
            final(self)@ == (QueueState { final_frame: Some(frame@), ..old(self)@ }),
    {
        self.final_frame = Some(frame);
        assert(self@ =~= (QueueState { final_frame: Some(frame@), ..old(self)@ }));
    }

    /// Whether a repaint was collapsed into a later one.
    pub fn owes_repaint(&self) -> (owes: bool)
        ensures
            owes == self@.repaint_pending,
    {
        self.repaint_pending
    }

    /// What to send once a writable event has drained the queue.
    pub fn after_drain(&mut self) -> (action: DrainAction)
        requires
            old(self).wf(),
        ensures
            final(self).wf(),
            match action {
                DrainAction::Nothing => {
                    &&& old(self)@.dead || old(self)@.pending.len() > 0 || (
                    old(self)@.final_frame is None && !old(self)@.repaint_pending)
                    &&& final(self)@ == old(self)@
                },
                DrainAction::FinalFrame(frame) => {
                    &&& !old(self)@.dead && old(self)@.pending.len() == 0
                    &&& old(self)@.final_frame == Some(frame@)
                    &&& final(self)@ == (QueueState { final_frame: None, ..old(self)@ })
                },
                DrainAction::Repaint => {
                    &&& !old(self)@.dead && old(self)@.pending.len() == 0
                    &&& old(self)@.final_frame is None && old(self)@.repaint_pending
                    &&& final(self)@ == (QueueState { repaint_pending: false, ..old(self)@ })
                },
            },
    {
        if self.dead || self.wants_write() {
            return DrainAction::Nothing;
        }
        match self.final_frame.take() {
            Some(frame) => {
                assert(self@ =~= (QueueState { final_frame: None, ..old(self)@ }));
                DrainAction::FinalFrame(frame)
            },
            None => {
                if self.repaint_pending {
                    self.repaint_pending = false;
                    assert(self@ =~= (QueueState { repaint_pending: false, ..old(self)@ }));
                    DrainAction::Repaint
                } else {
                    assert(self@ =~= old(self)@);
                    DrainAction::Nothing
                }
            },
        }
    }
}

proof fn lemma_end_of_queue(queue: ClientQueue, before: QueueState)
    requires
        queue.out_offset <= queue.outbuf@.len(),
        queue.render_end == Some(queue.outbuf.len()),
        before.pending == queue@.pending,
    ensures
        queue@.render == Some(before.pending.len() as int),
{
}

/// However many frames arrive while one drains, nothing more is queued: the
/// burst leaves one repaint to make.
pub proof fn lemma_render_burst_collapses(queue: QueueState, frames: Seq<Seq<u8>>)
    requires
        !queue.dead,
        queue.render is Some,
        frames.len() > 0,
    ensures
        queue.rendered_all(frames) == (QueueState { repaint_pending: true, ..queue }),
    decreases frames.len(),
{
    if frames.len() > 1 {
        lemma_render_burst_collapses(queue, frames.drop_last());
    } else {
        assert(frames.drop_last() =~= Seq::<Seq<u8>>::empty());
        assert(queue.rendered_all(frames.drop_last()) == queue);
    }
}

/// A client that was given up stays given up and holds nothing, whatever comes.
pub proof fn lemma_dead_stays_empty(queue: QueueState, bytes: Seq<u8>, outcome: WriteOutcome)
    requires
        queue.wf(),
        queue.dead,
        outcome matches WriteOutcome::Wrote(n) ==> n <= queue.pending.len(),
    ensures
        queue.queued(bytes) == queue,
        queue.rendered(bytes) == queue,
        queue.written(outcome).dead,
        queue.written(outcome).pending.len() == 0,
{
}

} // verus!
