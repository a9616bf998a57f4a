//! The sources of events: Panes, watched processes and clients. Each has a
//! token of its own, drawn once and never again.
use crate::pane_io::MAX_CLIENTS;
use crate::types::{PaneId, Token};
use vstd::prelude::*;

verus! {

/// The token of the socket that clients connect to.
pub const LISTENER: usize = 0;

/// The token by which the runtime wakes the loop.
pub const AGENT_WAKER: usize = 1;

/// The first token that is drawn.
pub const FIRST_TOKEN: usize = 16;

/// The terminal of a Pane.
#[derive(Clone, Copy, Debug, PartialEq, Eq, Structural)]
pub struct PaneSource {
    pub token: Token,
    pub pane: PaneId,
}

/// A process in a Pane whose end is reported by the kernel.
#[derive(Clone, Copy, Debug, PartialEq, Eq, Structural)]
pub struct ProcessWatch {
    pub token: Token,
    pub pane: PaneId,
    pub pid: i32,
}

/// Every source that events come from, but for the clients.
#[derive(Debug)]
pub struct Sources {
    pub next_token: usize,
    pub panes: Vec<PaneSource>,
    pub watches: Vec<ProcessWatch>,
}

/// Whom an event is for.
#[derive(Clone, Copy, Debug, PartialEq, Eq, Structural)]
pub enum Route {
    Listener,
    Runtime,
    Pane(PaneId),
    Process(ProcessWatch),
    Client,
}

/// The place of the Pane with this token, from position `i` on.
pub open spec fn pane_source_at(list: Seq<PaneSource>, token: Token, i: int) -> Option<int>
    decreases list.len() - i,
{
    if i < 0 || i >= list.len() {
        None
    } else if list[i].token == token {
        Some(i)
    } else {
        pane_source_at(list, token, i + 1)
    }
}

/// The place of the watch with this token, from position `i` on.
pub open spec fn watch_at(list: Seq<ProcessWatch>, token: Token, i: int) -> Option<int>
    decreases list.len() - i,
{
    if i < 0 || i >= list.len() {
        None
    } else if list[i].token == token {
        Some(i)
    } else {
        watch_at(list, token, i + 1)
    }
}

/// The place of a Pane's watch, from position `i` on.
pub open spec fn watch_of(list: Seq<ProcessWatch>, pane: PaneId, i: int) -> Option<int>
    decreases list.len() - i,
{
    if i < 0 || i >= list.len() {
        None
    } else if list[i].pane == pane {
        Some(i)
    } else {
        watch_of(list, pane, i + 1)
    }
}

/// Such a place holds what was looked for, and where there is none nothing does.
pub proof fn lemma_pane_source_at(list: Seq<PaneSource>, token: Token, i: int)
    requires
        i >= 0,
    ensures
        pane_source_at(list, token, i) matches Some(k) ==> i <= k < list.len() && list[k].token
            == token,
        pane_source_at(list, token, i) is None ==> forall|k: int|
            i <= k < list.len() ==> (#[trigger] list[k]).token != token,
    decreases list.len() - i,
{
    if i < list.len() && list[i].token != token {
        lemma_pane_source_at(list, token, i + 1);
    }
}

/// Such a place holds what was looked for, and where there is none nothing does.
pub proof fn lemma_watch_at(list: Seq<ProcessWatch>, token: Token, i: int)
    requires
        i >= 0,
    ensures
        watch_at(list, token, i) matches Some(k) ==> i <= k < list.len() && list[k].token == token,
        watch_at(list, token, i) is None ==> forall|k: int|
            i <= k < list.len() ==> (#[trigger] list[k]).token != token,
    decreases list.len() - i,
{
    if i < list.len() && list[i].token != token {
        lemma_watch_at(list, token, i + 1);
    }
}

/// Such a place holds what was looked for, and where there is none nothing does.
pub proof fn lemma_watch_of(list: Seq<ProcessWatch>, pane: PaneId, i: int)
    requires
        i >= 0,
    ensures
        watch_of(list, pane, i) matches Some(k) ==> i <= k < list.len() && list[k].pane == pane,
        watch_of(list, pane, i) is None ==> forall|k: int|
            i <= k < list.len() ==> (#[trigger] list[k]).pane != pane,
    decreases list.len() - i,
{
    if i < list.len() && list[i].pane != pane {
        lemma_watch_of(list, pane, i + 1);
    }
}

impl Sources {
    /// The token was drawn here.
    pub open spec fn drawn(self, token: Token) -> bool {
        FIRST_TOKEN <= token.0 < self.next_token
    }

    /// Every source has a drawn token of its own, and no Pane has two
    /// terminals or two watches.
    pub open spec fn wf(self) -> bool {
        &&& self.next_token >= FIRST_TOKEN
        &&& forall|i: int| 0 <= i < self.panes@.len() ==> self.drawn((#[trigger] self.panes@[i]).token)
        &&& forall|i: int|
            0 <= i < self.watches@.len() ==> self.drawn((#[trigger] self.watches@[i]).token)
        &&& forall|i: int, j: int|
            0 <= i < j < self.panes@.len() ==> (#[trigger] self.panes@[i]).token != (
            #[trigger] self.panes@[j]).token && self.panes@[i].pane != self.panes@[j].pane
        &&& forall|i: int, j: int|
            0 <= i < j < self.watches@.len() ==> (#[trigger] self.watches@[i]).token != (
            #[trigger] self.watches@[j]).token && self.watches@[i].pane != self.watches@[j].pane
        &&& forall|i: int, j: int|
            0 <= i < self.panes@.len() && 0 <= j < self.watches@.len() ==> (
            #[trigger] self.panes@[i]).token != (#[trigger] self.watches@[j]).token
    }

    /// Whom an event with this token is for.
    pub open spec fn routed(self, token: Token) -> Route {
        if token.0 == LISTENER {
            Route::Listener
        } else if token.0 == AGENT_WAKER {
            Route::Runtime
        } else {
            match pane_source_at(self.panes@, token, 0) {
                Some(i) => Route::Pane(self.panes@[i].pane),
                None => match watch_at(self.watches@, token, 0) {
                    Some(i) => Route::Process(self.watches@[i]),
                    None => Route::Client,
                },
            }
        }
    }

    /// No source yet.
    pub fn new() -> (sources: Sources)
        ensures
            sources.wf(),
            sources.next_token == FIRST_TOKEN,
            sources.panes@ == Seq::<PaneSource>::empty(),
            sources.watches@ == Seq::<ProcessWatch>::empty(),
    {
        Sources { next_token: FIRST_TOKEN, panes: Vec::new(), watches: Vec::new() }
    }

    /// Whom an event is for.
    pub fn route(&self, token: Token) -> (route: Route)
        ensures
            route == self.routed(token),
    {
        if token.0 == LISTENER {
            return Route::Listener;
        }
        if token.0 == AGENT_WAKER {
            return Route::Runtime;
        }
        let mut i: usize = 0;
        while i < self.panes.len()
            invariant
                i <= self.panes@.len(),
                token.0 != LISTENER,
                token.0 != AGENT_WAKER,
                pane_source_at(self.panes@, token, 0) == pane_source_at(
                    self.panes@,
                    token,
                    i as int,
                ),
            decreases self.panes@.len() - i,
        {
            if self.panes[i].token == token {
                return Route::Pane(self.panes[i].pane);
            }
            i += 1;
        }
        let mut j: usize = 0;
        while j < self.watches.len()
            invariant
                j <= self.watches@.len(),
                token.0 != LISTENER,
                token.0 != AGENT_WAKER,
                pane_source_at(self.panes@, token, 0) is None,
                watch_at(self.watches@, token, 0) == watch_at(self.watches@, token, j as int),
            decreases self.watches@.len() - j,
        {
            if self.watches[j].token == token {
                return Route::Process(self.watches[j]);
            }
            j += 1;
        }
        Route::Client
    }

    /// Draw a token.
    pub fn draw(&mut self) -> (token: Token)
        requires
            old(self).wf(),
            old(self).next_token < usize::MAX,
        ensures
            final(self).wf(),
            token == Token(old(self).next_token),
            *final(self) == (Sources {
                next_token: (old(self).next_token + 1) as usize,
                ..*old(self)
            }),
    {
        let token = Token(self.next_token);
        self.next_token += 1;
        token
    }

    /// Let one connection in while there are `clients`: its token, or `None`
    /// where the server is full.
    pub fn let_in(&mut self, clients: usize) -> (token: Option<Token>)
        requires
            old(self).wf(),
            old(self).next_token < usize::MAX,
        ensures
            final(self).wf(),
            token == if clients >= MAX_CLIENTS {
                None
            } else {
                Some(Token(old(self).next_token))
            },
            *final(self) == (Sources {
                next_token: (old(self).next_token + if token is Some {
                    1int
                } else {
                    0
                }) as usize,
                ..*old(self)
            }),
    {
        if clients >= MAX_CLIENTS {
            return None;
        }
        Some(self.draw())
    }

    /// A Pane was spawned; its terminal's token.
    pub fn add_pane(&mut self, pane: PaneId) -> (token: Token)
        requires
            old(self).wf(),
            old(self).next_token < usize::MAX,
            forall|i: int|
                0 <= i < old(self).panes@.len() ==> (#[trigger] old(self).panes@[i]).pane != pane,
        ensures
            final(self).wf(),
            token == Token(old(self).next_token),
            final(self).next_token == old(self).next_token + 1,
            final(self).panes@ == old(self).panes@.push(PaneSource { token, pane }),
            final(self).watches == old(self).watches,
    {
        let token = self.draw();
        self.panes.push(PaneSource { token, pane });
        token
    }

    /// A Pane closed: its terminal is no source any more, nor is its watch.
    pub fn drop_pane(&mut self, pane: PaneId) -> (dropped: Option<ProcessWatch>)
        requires
            old(self).wf(),
        ensures
            final(self).wf(),
            final(self).next_token == old(self).next_token,
            final(self).panes@ == old(self).panes@.filter(|s: PaneSource| s.pane != pane),
            dropped == match watch_of(old(self).watches@, pane, 0) {
                Some(i) => Some(old(self).watches@[i]),
                None => None,
            },
            final(self).watches@ == match watch_of(old(self).watches@, pane, 0) {
                Some(i) => old(self).watches@.remove(i),
                None => old(self).watches@,
            },
    {
        let ghost keep = |s: PaneSource| s.pane != pane;
        let ghost before = self.panes@;
        let mut kept: Vec<PaneSource> = Vec::new();
        let mut i: usize = 0;
        proof {
            crate::lists::lemma_filter_none(before, keep);
        }
        while i < self.panes.len()
            invariant
                i <= self.panes@.len(),
                self.panes@ == before,
                *self == *old(self),
                keep == (|s: PaneSource| s.pane != pane),
                kept@ == before.take(i as int).filter(keep),
                kept@.len() <= i,
                forall|k: int|
                    0 <= k < kept@.len() ==> exists|m: int|
                        k <= m < i && #[trigger] before[m] == (#[trigger] kept@[k]),
                forall|k: int, l: int|
                    0 <= k < l < kept@.len() ==> (#[trigger] kept@[k]).token != (
                    #[trigger] kept@[l]).token && kept@[k].pane != kept@[l].pane,
                old(self).wf(),
                before == old(self).panes@,
            decreases self.panes@.len() - i,
        {
            proof {
                crate::lists::lemma_filter_step(before, i as int, keep);
            }
            let source = self.panes[i];
            let ghost earlier = kept@;
            if source.pane != pane {
                kept.push(source);
            }
            i += 1;
            proof {
                assert(before[i - 1] == source);
                assert forall|k: int| 0 <= k < kept@.len() implies exists|m: int|
                    k <= m < i && #[trigger] before[m] == (#[trigger] kept@[k]) by {
                    if k < earlier.len() {
                        let m = choose|m: int| k <= m < i - 1 && #[trigger] before[m] == earlier[k];
                        assert(before[m] == kept@[k]);
                    } else {
                        assert(before[i - 1] == kept@[k]);
                    }
                }
                assert forall|k: int, l: int| 0 <= k < l < kept@.len() implies (
                #[trigger] kept@[k]).token != (#[trigger] kept@[l]).token && kept@[k].pane
                    != kept@[l].pane by {
                    if l == earlier.len() {
                        let m = choose|m: int| k <= m < i - 1 && #[trigger] before[m] == earlier[k];
                        assert(before[m] == kept@[k]);
                        assert(before[i - 1] == kept@[l]);
                    }
                }
            }
        }
        assert(before.take(i as int) =~= before);
        let dropped = self.drop_watch(pane);
        self.panes = kept;
        proof {
            assert forall|k: int| 0 <= k < self.panes@.len() implies self.drawn(
                (#[trigger] self.panes@[k]).token,
            ) by {
                let m = choose|m: int|
                    k <= m < before.len() && #[trigger] before[m] == self.panes@[k];
                assert(old(self).drawn(before[m].token));
            }
            assert forall|k: int, j: int|
                0 <= k < self.panes@.len() && 0 <= j < self.watches@.len() implies (
            #[trigger] self.panes@[k]).token != (#[trigger] self.watches@[j]).token by {
                let m = choose|m: int|
                    k <= m < before.len() && #[trigger] before[m] == self.panes@[k];
                assert(before[m].token != self.watches@[j].token);
            }
        }
        dropped
    }

    /// Where the watch of a Pane is.
    fn find_watch(&self, pane: PaneId) -> (found: Option<usize>)
        ensures
            found is Some <==> watch_of(self.watches@, pane, 0) is Some,
            found matches Some(i) ==> watch_of(self.watches@, pane, 0) == Some(i as int) && i
                < self.watches@.len(),
    {
        let mut i: usize = 0;
        while i < self.watches.len()
            invariant
                i <= self.watches@.len(),
                watch_of(self.watches@, pane, 0) == watch_of(self.watches@, pane, i as int),
            decreases self.watches@.len() - i,
        {
            if self.watches[i].pane == pane {
                return Some(i);
            }
            i += 1;
        }
        None
    }

    /// A Pane's process is watched no more.
    fn drop_watch(&mut self, pane: PaneId) -> (dropped: Option<ProcessWatch>)
        requires
            old(self).wf(),
        ensures
            final(self).wf(),
            final(self).next_token == old(self).next_token,
            final(self).panes == old(self).panes,
            dropped == match watch_of(old(self).watches@, pane, 0) {
                Some(i) => Some(old(self).watches@[i]),
                None => None,
            },
            final(self).watches@ == match watch_of(old(self).watches@, pane, 0) {
                Some(i) => old(self).watches@.remove(i),
                None => old(self).watches@,
            },
    {
        let ghost before = self.watches@;
        match self.find_watch(pane) {
            Some(i) => {
                let dropped = self.watches.remove(i);
                assert(self.watches@ == before.remove(i as int));
                Some(dropped)
            },
            None => None,
        }
    }

    /// A process came to the front of a Pane. `None` where it is watched
    /// already; otherwise the watch that it replaces, which is dropped, and
    /// the new one, once it can be registered, is to be noted.
    pub fn register_process_watch(&mut self, pane: PaneId, pid: i32) -> (replaced: Option<
        Option<ProcessWatch>,
    >)
        requires
            old(self).wf(),
        ensures
            final(self).wf(),
            final(self).next_token == old(self).next_token,
            final(self).panes == old(self).panes,
            match watch_of(old(self).watches@, pane, 0) {
                Some(i) => if old(self).watches@[i].pid == pid {
                    replaced is None && *final(self) == *old(self)
                } else {
                    replaced == Some(Some(old(self).watches@[i])) && final(self).watches@ == old(
                        self,
                    ).watches@.remove(i)
                },
                None => replaced == Some(None::<ProcessWatch>) && final(self).watches@ == old(
                    self,
                ).watches@,
            },
    {
        if let Some(i) = self.find_watch(pane) {
            if self.watches[i].pid == pid {
                return None;
            }
        }
        Some(self.drop_watch(pane))
    }

    /// A watch was registered under a token drawn for it.
    pub fn watch_registered(&mut self, token: Token, pane: PaneId, pid: i32)
        requires
            old(self).wf(),
            old(self).drawn(token),
            watch_of(old(self).watches@, pane, 0) is None,
            pane_source_at(old(self).panes@, token, 0) is None,
            watch_at(old(self).watches@, token, 0) is None,
        ensures
            final(self).wf(),
            final(self).next_token == old(self).next_token,
            final(self).panes == old(self).panes,
            final(self).watches@ == old(self).watches@.push(ProcessWatch { token, pane, pid }),
    {
        proof {
            lemma_watch_of(self.watches@, pane, 0);
            lemma_watch_at(self.watches@, token, 0);
            lemma_pane_source_at(self.panes@, token, 0);
        }
        self.watches.push(ProcessWatch { token, pane, pid });
    }

    /// The kernel reported the end of a process: its watch, which is dropped.
    pub fn process_exited(&mut self, token: Token) -> (ended: Option<ProcessWatch>)
        requires
            old(self).wf(),
        ensures
            final(self).wf(),
            final(self).next_token == old(self).next_token,
            final(self).panes == old(self).panes,
            match watch_at(old(self).watches@, token, 0) {
                Some(i) => ended == Some(old(self).watches@[i]) && final(self).watches@ == old(
                    self,
                ).watches@.remove(i),
                None => ended is None && final(self).watches@ == old(self).watches@,
            },
    {
        let ghost before = self.watches@;
        let mut i: usize = 0;
        while i < self.watches.len()
            invariant
                i <= self.watches@.len(),
                *self == *old(self),
                self.watches@ == before,
                self.wf(),
                watch_at(before, token, 0) == watch_at(before, token, i as int),
            decreases self.watches@.len() - i,
        {
            if self.watches[i].token == token {
                let ended = self.watches.remove(i);
                assert(self.watches@ == before.remove(i as int));
                return Some(ended);
            }
            i += 1;
        }
        None
    }
}

/// An event reaches the source that it comes from: the token of a Pane leads to
/// that Pane, the token of a watch to that watch, and a token newly drawn leads
/// to neither, so that it can be a client's.
pub proof fn lemma_events_reach_their_source(sources: Sources)
    requires
        sources.wf(),
    ensures
        forall|i: int|
            0 <= i < sources.panes@.len() ==> sources.routed((#[trigger] sources.panes@[i]).token)
                == Route::Pane(sources.panes@[i].pane),
        forall|i: int|
            0 <= i < sources.watches@.len() ==> sources.routed(
                (#[trigger] sources.watches@[i]).token,
            ) == Route::Process(sources.watches@[i]),
        sources.routed(Token(sources.next_token)) == Route::Client,
{
    assert forall|i: int| 0 <= i < sources.panes@.len() implies sources.routed(
        (#[trigger] sources.panes@[i]).token,
    ) == Route::Pane(sources.panes@[i].pane) by {
        lemma_pane_source_at(sources.panes@, sources.panes@[i].token, 0);
    }
    assert forall|i: int| 0 <= i < sources.watches@.len() implies sources.routed(
        (#[trigger] sources.watches@[i]).token,
    ) == Route::Process(sources.watches@[i]) by {
        lemma_pane_source_at(sources.panes@, sources.watches@[i].token, 0);
        lemma_watch_at(sources.watches@, sources.watches@[i].token, 0);
    }
    let fresh = Token(sources.next_token);
    lemma_pane_source_at(sources.panes@, fresh, 0);
    lemma_watch_at(sources.watches@, fresh, 0);
}

} // verus!
