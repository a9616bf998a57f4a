//! The turns that the listener and the clients get, so that none of them can
//! keep the loop from the others.
use crate::pane_io::{ReadStep, MAX_ACCEPTS_PER_EVENT, MAX_CLIENT_MESSAGES_PER_EVENT};
use crate::sources::Sources;
use crate::types::Token;
use vstd::prelude::*;

verus! {

/// The listener's turn.
#[derive(Debug)]
pub struct AcceptTurn {
    pub accepted: usize,
}

/// What one attempt to accept a connection comes to.
#[derive(Clone, Copy, Debug, PartialEq, Eq, Structural)]
pub enum AcceptStep {
    /// Register the connection under this token.
    Register(Token),
    /// Shut the connection: the server is full.
    TurnAway,
    /// No connection waits.
    Done,
}

impl AcceptTurn {
    pub fn new() -> (turn: AcceptTurn)
        ensures
            turn.accepted == 0,
    {
        AcceptTurn { accepted: 0 }
    }

    /// Whether the turn is over though connections may wait: the listener gets
    /// another turn before the loop blocks.
    pub fn spent(&self) -> (spent: bool)
        ensures
            spent == (self.accepted >= MAX_ACCEPTS_PER_EVENT),
    {
        self.accepted >= MAX_ACCEPTS_PER_EVENT
    }

    /// Take note of one attempt, which got a connection or did not, while there
    /// are `clients`. A connection that is turned away counts, too.
    pub fn step(&mut self, connected: bool, clients: usize, sources: &mut Sources) -> (next:
        AcceptStep)
        requires
            old(self).accepted < MAX_ACCEPTS_PER_EVENT,
            old(sources).wf(),
            old(sources).next_token < usize::MAX,
        ensures
            final(sources).wf(),
            final(self).accepted == old(self).accepted + if connected {
                1int
            } else {
                0
            },
            next == if !connected {
                AcceptStep::Done
            } else if clients >= crate::pane_io::MAX_CLIENTS {
                AcceptStep::TurnAway
            } else {
                AcceptStep::Register(Token(old(sources).next_token))
            },
            *final(sources) == (Sources {
                next_token: (old(sources).next_token + if next is Register {
                    1int
                } else {
                    0
                }) as usize,
                ..*old(sources)
            }),
    {
        if !connected {
            return AcceptStep::Done;
        }
        self.accepted += 1;
        match sources.let_in(clients) {
            Some(token) => AcceptStep::Register(token),
            None => AcceptStep::TurnAway,
        }
    }
}

/// A client's turn.
#[derive(Clone, Copy, Debug, PartialEq, Eq, Structural)]
pub struct ClientTurn {
    /// The client is to be removed at the end.
    pub remove: bool,
    /// The messages taken so far.
    pub messages: usize,
}

/// What decoding the next message came to.
#[derive(Clone, Copy, Debug, PartialEq, Eq, Structural)]
pub enum DecodeOutcome {
    Message,
    /// The rest of the message is still to come.
    Partial,
    Malformed,
}

/// How a client's turn ends.
#[derive(Clone, Copy, Debug, PartialEq, Eq, Structural)]
pub enum TurnEnd {
    Keep,
    Remove,
    /// Paint what was collapsed while the client was slow.
    Repaint,
}

impl ClientTurn {
    /// A turn begins. A client that was given up is removed.
    pub fn new(dead: bool) -> (turn: ClientTurn)
        ensures
            turn == (ClientTurn { remove: dead, messages: 0 }),
    {
        ClientTurn { remove: dead, messages: 0 }
    }

    /// The reads of the turn ended in this way. A client that hung up is
    /// removed.
    pub fn reads_ended(&mut self, step: ReadStep)
        ensures
            *final(self) == (ClientTurn {
                remove: old(self).remove || step == ReadStep::Closed,
                ..*old(self)
            }),
    {
        if step == ReadStep::Closed {
            self.remove = true;
        }
    }

    /// Take note of one attempt to decode; whether to decode again. A client
    /// that sends nonsense, or more than a turn's messages at once, is removed,
    /// though the messages that came before still count.
    pub fn decoded(&mut self, outcome: DecodeOutcome) -> (again: bool)
        requires
            old(self).messages < MAX_CLIENT_MESSAGES_PER_EVENT,
        ensures
            final(self).messages == old(self).messages + if outcome == DecodeOutcome::Message {
                1int
            } else {
                0
            },
            final(self).remove == (old(self).remove || outcome == DecodeOutcome::Malformed
                || final(self).messages == MAX_CLIENT_MESSAGES_PER_EVENT),
            again == (outcome == DecodeOutcome::Message && final(self).messages
                < MAX_CLIENT_MESSAGES_PER_EVENT),
    {
        match outcome {
            DecodeOutcome::Message => {
                self.messages += 1;
                if self.messages >= MAX_CLIENT_MESSAGES_PER_EVENT {
                    self.remove = true;
                    false
                } else {
                    true
                }
            },
            DecodeOutcome::Partial => false,
            DecodeOutcome::Malformed => {
                self.remove = true;
                false
            },
        }
    }

    /// Whether the client is to be read again before the loop blocks.
    pub fn reads_again(&self, step: ReadStep) -> (again: bool)
        ensures
            again == (step == ReadStep::Spent && !self.remove),
    {
        step == ReadStep::Spent && !self.remove
    }

    /// End the turn. `detached` says that a message took the client away;
    /// `dead` that it was given up, and `repaint` that a repaint is owed, both
    /// once its writable stream was drained.
    pub fn finish(&self, detached: bool, dead: bool, repaint: bool) -> (end: TurnEnd)
        ensures
            end == if self.remove || detached || dead {
                TurnEnd::Remove
            } else if repaint {
                TurnEnd::Repaint
            } else {
                TurnEnd::Keep
            },
    {
        if self.remove || detached || dead {
            TurnEnd::Remove
        } else if repaint {
            TurnEnd::Repaint
        } else {
            TurnEnd::Keep
        }
    }
}

/// The turn after each of these attempts to decode, in order; it stops where
/// decoding does.
pub open spec fn after_decoding(turn: ClientTurn, outcomes: Seq<DecodeOutcome>) -> ClientTurn
    decreases outcomes.len(),
{
    if outcomes.len() == 0 || turn.messages >= MAX_CLIENT_MESSAGES_PER_EVENT {
        turn
    } else {
        match outcomes[0] {
            DecodeOutcome::Message => {
                let n = (turn.messages + 1) as usize;
                after_decoding(
                    ClientTurn {
                        remove: turn.remove || n == MAX_CLIENT_MESSAGES_PER_EVENT,
                        messages: n,
                    },
                    outcomes.skip(1),
                )
            },
            DecodeOutcome::Partial => turn,
            DecodeOutcome::Malformed => ClientTurn { remove: true, ..turn },
        }
    }
}

/// However much a client sent, one turn carries out no more than a bounded
/// number of its messages; a client that reaches the bound is removed.
pub proof fn lemma_turn_bounded(turn: ClientTurn, outcomes: Seq<DecodeOutcome>)
    requires
        turn.messages < MAX_CLIENT_MESSAGES_PER_EVENT,
    ensures
        after_decoding(turn, outcomes).messages <= MAX_CLIENT_MESSAGES_PER_EVENT,
        after_decoding(turn, outcomes).messages == MAX_CLIENT_MESSAGES_PER_EVENT
            ==> after_decoding(turn, outcomes).remove,
        turn.remove ==> after_decoding(turn, outcomes).remove,
    decreases outcomes.len(),
{
    if outcomes.len() > 0 && outcomes[0] == DecodeOutcome::Message {
        let n = (turn.messages + 1) as usize;
        let next = ClientTurn {
            remove: turn.remove || n == MAX_CLIENT_MESSAGES_PER_EVENT,
            messages: n,
        };
        if n < MAX_CLIENT_MESSAGES_PER_EVENT {
            lemma_turn_bounded(next, outcomes.skip(1));
        } else {
            assert(after_decoding(next, outcomes.skip(1)) == next);
        }
    }
}

} // verus!
