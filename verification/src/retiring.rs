//! The processes of closed Panes: each is asked to end, and listed until it was
//! forced to end and is reported gone.
use crate::orchestration::{earlier, sooner};
use crate::reaper::{RetiringPty, TERM_GRACE_MS};
use crate::server::Server;
use crate::sources::{watch_of, PaneSource, ProcessWatch, Sources};
use crate::types::{PaneId, Token};
use vstd::prelude::*;

verus! {

/// The tokens of a closed terminal, and of the report that its process ended.
#[derive(Clone, Copy, Debug, PartialEq, Eq, Structural)]
pub struct RetiringTokens {
    pub terminal: Token,
    pub exit: Token,
}

/// A closed Pane whose process may still run.
#[derive(Clone, Copy, Debug, PartialEq, Eq, Structural)]
pub struct RetiringPane {
    pub pane: PaneId,
    pub tokens: Option<RetiringTokens>,
    pub pty: RetiringPty,
}

/// What an event is to the processes that retire.
#[derive(Clone, Copy, Debug, PartialEq, Eq, Structural)]
pub enum RetiringEvent {
    /// It belongs to another source.
    Other,
    /// Output waits to be discarded.
    Readable,
    /// The process of this Pane ended; it is to be collected now, or once it was
    /// forced to end.
    Exited { pane: PaneId, collect: bool },
}

/// The Pane has a process.
pub open spec fn has_process(panes: Seq<PaneSource>, pane: PaneId) -> bool {
    exists|i: int| 0 <= i < panes.len() && (#[trigger] panes[i]).pane == pane
}

/// The processes that retire once a Pane closed.
pub open spec fn with_retiring(
    list: Seq<RetiringPane>,
    panes: Seq<PaneSource>,
    pane: PaneId,
    now: u64,
) -> Seq<RetiringPane> {
    if has_process(panes, pane) {
        list.push(
            RetiringPane {
                pane,
                tokens: None,
                pty: RetiringPty::closed_now(now, false, false),
            },
        )
    } else {
        list
    }
}

/// The first entry for a Pane, from position `i` on.
pub open spec fn retiring_at(list: Seq<RetiringPane>, pane: PaneId, i: int) -> Option<int>
    decreases list.len() - i,
{
    if i < 0 || i >= list.len() {
        None
    } else if list[i].pane == pane {
        Some(i)
    } else {
        retiring_at(list, pane, i + 1)
    }
}

impl RetiringPane {
    /// What an event with this token is to the process.
    pub open spec fn event(self, token: Token) -> RetiringEvent {
        match self.tokens {
            Some(tokens) => if self.pty.watched && tokens.exit == token {
                RetiringEvent::Exited { pane: self.pane, collect: self.pty.kill_at is None }
            } else if tokens.terminal == token {
                RetiringEvent::Readable
            } else {
                RetiringEvent::Other
            },
            None => RetiringEvent::Other,
        }
    }

    fn event_of(&self, token: Token) -> (event: RetiringEvent)
        ensures
            event == self.event(token),
    {
        match self.tokens {
            Some(tokens) => {
                if self.pty.watched && tokens.exit == token {
                    RetiringEvent::Exited { pane: self.pane, collect: self.pty.kill_at.is_none() }
                } else if tokens.terminal == token {
                    RetiringEvent::Readable
                } else {
                    RetiringEvent::Other
                }
            },
            None => RetiringEvent::Other,
        }
    }
}

/// The first process that an event with this token is for, from position `i` on.
pub open spec fn retiring_event_at(list: Seq<RetiringPane>, token: Token, i: int) -> Option<int>
    decreases list.len() - i,
{
    if i < 0 || i >= list.len() {
        None
    } else if list[i].event(token) != RetiringEvent::Other {
        Some(i)
    } else {
        retiring_event_at(list, token, i + 1)
    }
}

/// When the first `n` processes next need attention.
pub open spec fn reap_deadline(list: Seq<RetiringPane>, now: u64, n: nat) -> Option<u64>
    decreases n,
{
    if n == 0 {
        None
    } else {
        sooner(reap_deadline(list, now, (n - 1) as nat), list[n - 1].pty.deadline(now))
    }
}

impl Server {
    /// Begin to retire the process of a Pane; whether it has one.
    pub(crate) fn retire_pane(&mut self, pane: PaneId, now: u64) -> (retired: bool)
        requires
            now <= u64::MAX - TERM_GRACE_MS,
        ensures
            retired == has_process(old(self).sources.panes@, pane),
            final(self).retiring_ptys@ == with_retiring(
                old(self).retiring_ptys@,
                old(self).sources.panes@,
                pane,
                now,
            ),
            *final(self) == (Server { retiring_ptys: final(self).retiring_ptys, ..*old(self) }),
    {
        let mut i: usize = 0;
        while i < self.sources.panes.len()
            invariant
                i <= self.sources.panes@.len(),
                *self == *old(self),
                now <= u64::MAX - TERM_GRACE_MS,
                forall|k: int| 0 <= k < i ==> (#[trigger] self.sources.panes@[k]).pane != pane,
            decreases self.sources.panes@.len() - i,
        {
            if self.sources.panes[i].pane == pane {
                assert(self.sources.panes@[i as int].pane == pane);
                let pty = RetiringPty::retire(now, false, false);
                self.retiring_ptys.push(RetiringPane { pane, tokens: None, pty });
                return true;
            }
            i += 1;
        }
        false
    }

    /// A Pane that is shown nowhere is given up: its terminal is no source any
    /// more, and its process retires.
    pub fn discard_pane(&mut self, pane: PaneId, now: u64) -> (watch: Option<ProcessWatch>)
        requires
            old(self).sources.wf(),
            now <= u64::MAX - TERM_GRACE_MS,
        ensures
            final(self).sources.wf(),
            watch == match watch_of(old(self).sources.watches@, pane, 0) {
                Some(i) => Some(old(self).sources.watches@[i]),
                None => None,
            },
            final(self).retiring_ptys@ == with_retiring(
                old(self).retiring_ptys@,
                old(self).sources.panes@,
                pane,
                now,
            ),
            final(self).sources.panes@ == old(self).sources.panes@.filter(
                |s: PaneSource| s.pane != pane,
            ),
            final(self).sources.next_token == old(self).sources.next_token,
            final(self).sources.watches@ == match watch_of(old(self).sources.watches@, pane, 0) {
                Some(i) => old(self).sources.watches@.remove(i),
                None => old(self).sources.watches@,
            },
            *final(self) == (Server {
                sources: final(self).sources,
                retiring_ptys: final(self).retiring_ptys,
                ..*old(self)
            }),
    {
        self.retire_pane(pane, now);
        self.sources.drop_pane(pane)
    }

    /// Give up every Pane that has a process, as a saved Workspace takes the
    /// place of this one. Their watches stay.
    pub fn retire_all(&mut self, now: u64) -> (panes: Vec<PaneId>)
        requires
            old(self).sources.wf(),
            now <= u64::MAX - TERM_GRACE_MS,
        ensures
            final(self).sources.wf(),
            final(self).sources.panes@.len() == 0,
            panes@ == Seq::new(
                old(self).sources.panes@.len(),
                |i: int| old(self).sources.panes@[i].pane,
            ),
            final(self).retiring_ptys@ == old(self).retiring_ptys@ + Seq::new(
                old(self).sources.panes@.len(),
                |i: int|
                    RetiringPane {
                        pane: old(self).sources.panes@[i].pane,
                        tokens: None,
                        pty: RetiringPty::closed_now(now, false, false),
                    },
            ),
            *final(self) == (Server {
                sources: Sources { panes: final(self).sources.panes, ..old(self).sources },
                retiring_ptys: final(self).retiring_ptys,
                ..*old(self)
            }),
    {
        let ghost list = self.retiring_ptys@;
        let ghost entry = |i: int|
            RetiringPane {
                pane: old(self).sources.panes@[i].pane,
                tokens: None,
                pty: RetiringPty::closed_now(now, false, false),
            };
        let mut panes: Vec<PaneId> = Vec::new();
        let mut i: usize = 0;
        assert(self.retiring_ptys@ =~= list + Seq::new(0, entry));
        while i < self.sources.panes.len()
            invariant
                i <= self.sources.panes@.len(),
                now <= u64::MAX - TERM_GRACE_MS,
                list == old(self).retiring_ptys@,
                entry == (|i: int|
                    RetiringPane {
                        pane: old(self).sources.panes@[i].pane,
                        tokens: None,
                        pty: RetiringPty::closed_now(now, false, false),
                    }),
                *self == (Server { retiring_ptys: self.retiring_ptys, ..*old(self) }),
                self.retiring_ptys@ == list + Seq::new(i as nat, entry),
                panes@.len() == i,
                forall|k: int| 0 <= k < i ==> panes@[k] == old(self).sources.panes@[k].pane,
            decreases self.sources.panes@.len() - i,
        {
            let pane = self.sources.panes[i].pane;
            let pty = RetiringPty::retire(now, false, false);
            self.retiring_ptys.push(RetiringPane { pane, tokens: None, pty });
            panes.push(pane);
            i += 1;
            assert(self.retiring_ptys@ =~= list + Seq::new(i as nat, entry));
        }
        self.sources.panes.clear();
        assert(panes@ =~= Seq::new(
            old(self).sources.panes@.len(),
            |i: int| old(self).sources.panes@[i].pane,
        ));
        panes
    }

    fn find_retiring(&self, pane: PaneId) -> (found: Option<usize>)
        ensures
            crate::hierarchy::index_of(found) == retiring_at(self.retiring_ptys@, pane, 0),
            found matches Some(i) ==> i < self.retiring_ptys@.len(),
    {
        let mut i: usize = 0;
        while i < self.retiring_ptys.len()
            invariant
                i <= self.retiring_ptys@.len(),
                retiring_at(self.retiring_ptys@, pane, 0) == retiring_at(
                    self.retiring_ptys@,
                    pane,
                    i as int,
                ),
            decreases self.retiring_ptys@.len() - i,
        {
            if self.retiring_ptys[i].pane == pane {
                return Some(i);
            }
            i += 1;
        }
        None
    }

    /// Draw the tokens under which a closed terminal and the end of its process
    /// are watched; `None` where no process of the Pane retires.
    pub fn draw_retiring(&mut self, pane: PaneId) -> (tokens: Option<RetiringTokens>)
        requires
            old(self).sources.wf(),
            old(self).sources.next_token < usize::MAX - 1,
        ensures
            final(self).sources.wf(),
            match retiring_at(old(self).retiring_ptys@, pane, 0) {
                Some(i) => {
                    let next = old(self).sources.next_token;
                    let drawn = RetiringTokens {
                        terminal: Token(next),
                        exit: Token((next + 1) as usize),
                    };
                    &&& tokens == Some(drawn)
                    &&& final(self).retiring_ptys@ == old(self).retiring_ptys@.update(
                        i,
                        RetiringPane { tokens: Some(drawn), ..old(self).retiring_ptys@[i] },
                    )
                    &&& *final(self) == (Server {
                        sources: Sources {
                            next_token: (next + 2) as usize,
                            ..old(self).sources
                        },
                        retiring_ptys: final(self).retiring_ptys,
                        ..*old(self)
                    })
                },
                None => tokens is None && *final(self) == *old(self),
            },
    {
        let Some(i) = self.find_retiring(pane) else {
            return None;
        };
        let terminal = self.sources.draw();
        let exit = self.sources.draw();
        let drawn = RetiringTokens { terminal, exit };
        let known = self.retiring_ptys[i];
        self.retiring_ptys.set(i, RetiringPane { tokens: Some(drawn), ..known });
        Some(drawn)
    }

    /// Take note of what could be registered for a process that retires.
    pub fn retiring_registered(&mut self, pane: PaneId, watched: bool, registered: bool)
        ensures
            final(self).retiring_ptys@ == match retiring_at(old(self).retiring_ptys@, pane, 0) {
                Some(i) => old(self).retiring_ptys@.update(
                    i,
                    RetiringPane {
                        pty: RetiringPty {
                            watched,
                            master_registered: registered,
                            ..old(self).retiring_ptys@[i].pty
                        },
                        ..old(self).retiring_ptys@[i]
                    },
                ),
                None => old(self).retiring_ptys@,
            },
            *final(self) == (Server { retiring_ptys: final(self).retiring_ptys, ..*old(self) }),
    {
        if let Some(i) = self.find_retiring(pane) {
            let known = self.retiring_ptys[i];
            let pty = RetiringPty { watched, master_registered: registered, ..known.pty };
            self.retiring_ptys.set(i, RetiringPane { pty, ..known });
        }
    }

    /// Take an event to the process that retires under its token.
    pub fn on_retiring_pty(&mut self, token: Token) -> (event: RetiringEvent)
        ensures
            match retiring_event_at(old(self).retiring_ptys@, token, 0) {
                Some(i) => {
                    let known = old(self).retiring_ptys@[i];
                    &&& event == known.event(token)
                    &&& final(self).retiring_ptys@ == if event is Readable {
                        old(self).retiring_ptys@.update(
                            i,
                            RetiringPane {
                                pty: RetiringPty { read_pending: true, ..known.pty },
                                ..known
                            },
                        )
                    } else {
                        old(self).retiring_ptys@
                    }
                },
                None => event is Other && final(self).retiring_ptys@ == old(self).retiring_ptys@,
            },
            *final(self) == (Server { retiring_ptys: final(self).retiring_ptys, ..*old(self) }),
    {
        let mut i: usize = 0;
        while i < self.retiring_ptys.len()
            invariant
                i <= self.retiring_ptys@.len(),
                *self == *old(self),
                retiring_event_at(self.retiring_ptys@, token, 0) == retiring_event_at(
                    self.retiring_ptys@,
                    token,
                    i as int,
                ),
            decreases self.retiring_ptys@.len() - i,
        {
            let known = self.retiring_ptys[i];
            let event = known.event_of(token);
            match event {
                RetiringEvent::Other => {},
                RetiringEvent::Readable => {
                    let mut pty = known.pty;
                    pty.on_readable();
                    self.retiring_ptys.set(i, RetiringPane { pty, ..known });
                    return event;
                },
                RetiringEvent::Exited { .. } => {
                    return event;
                },
            }
            i += 1;
        }
        RetiringEvent::Other
    }

    /// Take note that the process of a Pane ended; `reaped` says whether it was
    /// collected.
    pub fn retiring_exited(&mut self, pane: PaneId, reaped: bool)
        ensures
            final(self).retiring_ptys@ == match retiring_at(old(self).retiring_ptys@, pane, 0) {
                Some(i) => {
                    let known = old(self).retiring_ptys@[i];
                    old(self).retiring_ptys@.update(
                        i,
                        RetiringPane {
                            pty: RetiringPty {
                                watched: false,
                                child_exited: if known.pty.kill_at is None {
                                    reaped
                                } else {
                                    known.pty.child_exited
                                },
                                read_pending: true,
                                ..known.pty
                            },
                            ..known
                        },
                    )
                },
                None => old(self).retiring_ptys@,
            },
            *final(self) == (Server { retiring_ptys: final(self).retiring_ptys, ..*old(self) }),
    {
        if let Some(i) = self.find_retiring(pane) {
            let known = self.retiring_ptys[i];
            let mut pty = known.pty;
            pty.on_exit_report(reaped);
            self.retiring_ptys.set(i, RetiringPane { pty, ..known });
        }
    }

    /// When a process that retires next needs attention.
    pub fn next_reap_deadline(&self, now: u64) -> (deadline: Option<u64>)
        ensures
            deadline == reap_deadline(self.retiring_ptys@, now, self.retiring_ptys@.len()),
    {
        let mut deadline: Option<u64> = None;
        let mut i: usize = 0;
        while i < self.retiring_ptys.len()
            invariant
                i <= self.retiring_ptys@.len(),
                deadline == reap_deadline(self.retiring_ptys@, now, i as nat),
            decreases self.retiring_ptys@.len() - i,
        {
            deadline = earlier(deadline, self.retiring_ptys[i].pty.next_reap_deadline(now));
            i += 1;
        }
        deadline
    }
}

} // verus!
