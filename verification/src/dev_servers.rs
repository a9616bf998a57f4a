//! The web servers that were seen in Panes.
use crate::lists::{lemma_filter_none, lemma_filter_step};
use crate::observatory::DevServer;
use crate::text::same_text;
use crate::types::PaneId;
use vstd::prelude::*;

verus! {

/// A web server as the output of a Pane shows it.
#[derive(Debug)]
pub struct FoundServer {
    pub port: u16,
    pub label: String,
    pub url: String,
}

/// The web servers that were seen: one for each Pane and port. Later sightings
/// have higher numbers.
#[derive(Debug)]
pub struct DevServers {
    pub list: Vec<DevServer>,
    pub next: u64,
}

/// The first server of a Pane at a port, from position `i` on.
pub open spec fn server_at(list: Seq<DevServer>, pane: PaneId, port: u16, i: int) -> Option<int>
    decreases list.len() - i,
{
    if i < 0 || i >= list.len() {
        None
    } else if list[i].pane == pane && list[i].port == port {
        Some(i)
    } else {
        server_at(list, pane, port, i + 1)
    }
}

proof fn lemma_server_at(list: Seq<DevServer>, pane: PaneId, port: u16, i: int)
    requires
        0 <= i,
    ensures
        server_at(list, pane, port, i) matches Some(k) ==> i <= k < list.len() && list[k].pane
            == pane && list[k].port == port,
        server_at(list, pane, port, i) is None ==> forall|k: int|
            i <= k < list.len() ==> !((#[trigger] list[k]).pane == pane && list[k].port == port),
    decreases list.len() - i,
{
    if i < list.len() && !(list[i].pane == pane && list[i].port == port) {
        lemma_server_at(list, pane, port, i + 1);
    }
}

/// No Pane has two servers at one port.
pub open spec fn keys_distinct(list: Seq<DevServer>) -> bool {
    forall|i: int, j: int|
        0 <= i < j < list.len() ==> !((#[trigger] list[i]).pane == (#[trigger] list[j]).pane
            && list[i].port == list[j].port)
}

/// A sighting says what is known already.
pub open spec fn known_server(s: DevServer, found: FoundServer) -> bool {
    s.label@ == found.label@ && s.url@ == found.url@
}

/// The server that a sighting makes known.
pub open spec fn seen_server(pane: PaneId, found: FoundServer, detected: int) -> DevServer {
    DevServer {
        pane,
        port: found.port,
        detected: detected as u64,
        label: found.label,
        url: found.url,
        stopping: false,
    }
}

/// The servers after one sighting, and the number of the next.
pub open spec fn noted(list: Seq<DevServer>, next: int, pane: PaneId, found: FoundServer) -> (
    Seq<DevServer>,
    int,
) {
    match server_at(list, pane, found.port, 0) {
        Some(i) => if known_server(list[i], found) {
            (list, next)
        } else {
            (list.update(i, seen_server(pane, found, next)), next + 1)
        },
        None => (list.push(seen_server(pane, found, next)), next + 1),
    }
}

/// The servers after the first `n` sightings, and the number of the next.
pub open spec fn all_noted(
    list: Seq<DevServer>,
    next: int,
    pane: PaneId,
    found: Seq<FoundServer>,
    n: nat,
) -> (Seq<DevServer>, int)
    decreases n,
{
    if n == 0 {
        (list, next)
    } else {
        let (l, k) = all_noted(list, next, pane, found, (n - 1) as nat);
        noted(l, k, pane, found[n - 1])
    }
}

/// A server of another Pane.
pub open spec fn of_other(pane: PaneId) -> spec_fn(DevServer) -> bool {
    |s: DevServer| s.pane != pane
}

impl DevServers {
    pub open spec fn wf(self) -> bool {
        keys_distinct(self.list@)
    }

    pub fn new() -> (servers: DevServers)
        ensures
            servers.wf(),
            servers.list@.len() == 0,
            servers.next == 1,
    {
        DevServers { list: Vec::new(), next: 1 }
    }

    fn find(&self, pane: PaneId, port: u16) -> (found: Option<usize>)
        ensures
            crate::hierarchy::index_of(found) == server_at(self.list@, pane, port, 0),
            found matches Some(i) ==> i < self.list@.len(),
    {
        let mut i: usize = 0;
        while i < self.list.len()
            invariant
                i <= self.list@.len(),
                server_at(self.list@, pane, port, 0) == server_at(
                    self.list@,
                    pane,
                    port,
                    i as int,
                ),
            decreases self.list@.len() - i,
        {
            if self.list[i].pane == pane && self.list[i].port == port {
                return Some(i);
            }
            i += 1;
        }
        None
    }

    fn note(&mut self, pane: PaneId, found: FoundServer) -> (changed: bool)
        requires
            old(self).wf(),
            old(self).next < u64::MAX,
        ensures
            final(self).wf(),
            (final(self).list@, final(self).next as int) == noted(
                old(self).list@,
                old(self).next as int,
                pane,
                found,
            ),
            changed == (final(self).next != old(self).next),
            final(self).next <= old(self).next + 1,
    {
        proof {
            lemma_server_at(self.list@, pane, found.port, 0);
        }
        let detected: u64 = self.next;
        match self.find(pane, found.port) {
            Some(i) => {
                if same_text(self.list[i].label.as_str(), found.label.as_str()) && same_text(
                    self.list[i].url.as_str(),
                    found.url.as_str(),
                ) {
                    return false;
                }
                self.list.set(
                    i,
                    DevServer {
                        pane,
                        port: found.port,
                        detected,
                        label: found.label,
                        url: found.url,
                        stopping: false,
                    },
                );
            },
            None => {
                self.list.push(
                    DevServer {
                        pane,
                        port: found.port,
                        detected,
                        label: found.label,
                        url: found.url,
                        stopping: false,
                    },
                );
            },
        }
        self.next += 1;
        true
    }

    /// Take in what the output of a Pane shows; whether anything is new. A
    /// sighting that says what is known already keeps its number.
    pub fn detected(&mut self, pane: PaneId, found: Vec<FoundServer>) -> (changed: bool)
        requires
            old(self).wf(),
            old(self).next + found@.len() <= u64::MAX,
        ensures
            final(self).wf(),
            (final(self).list@, final(self).next as int) == all_noted(
                old(self).list@,
                old(self).next as int,
                pane,
                found@,
                found@.len(),
            ),
            changed == (final(self).next != old(self).next),
    {
        let ghost list = self.list@;
        let ghost next = self.next as int;
        let ghost all = found@;
        let mut rest = found;
        let mut changed = false;
        let ghost mut i: nat = 0;
        assert(rest@ =~= all.skip(0));
        while rest.len() > 0
            invariant
                self.wf(),
                i <= all.len(),
                rest@ == all.skip(i as int),
                next <= self.next <= next + i,
                next + all.len() <= u64::MAX,
                (self.list@, self.next as int) == all_noted(list, next, pane, all, i),
                changed == (self.next != next),
            decreases rest@.len(),
        {
            let one = rest.remove(0);
            assert(one == all[i as int]);
            assert(rest@ =~= all.skip(i as int + 1));
            if self.note(pane, one) {
                changed = true;
            }
            proof {
                i = i + 1;
            }
        }
        changed
    }

    /// Forget a server that is gone; whether it was known.
    pub fn down(&mut self, pane: PaneId, port: u16) -> (changed: bool)
        requires
            old(self).wf(),
        ensures
            final(self).wf(),
            final(self).next == old(self).next,
            final(self).list@ == match server_at(old(self).list@, pane, port, 0) {
                Some(i) => old(self).list@.remove(i),
                None => old(self).list@,
            },
            changed == (server_at(old(self).list@, pane, port, 0) is Some),
            server_at(final(self).list@, pane, port, 0) is None,
    {
        let ghost before = self.list@;
        proof {
            lemma_server_at(before, pane, port, 0);
        }
        match self.find(pane, port) {
            Some(i) => {
                self.list.remove(i);
                proof {
                    let after = self.list@;
                    assert(after == before.remove(i as int));
                    lemma_server_at(after, pane, port, 0);
                    if let Some(k) = server_at(after, pane, port, 0) {
                        let j = if k < i {
                            k
                        } else {
                            k + 1
                        };
                        assert(before[j] == after[k]);
                        assert(before[i as int].pane == pane && before[i as int].port == port);
                        assert(before[j].pane == pane && before[j].port == port);
                    }
                }
                true
            },
            None => false,
        }
    }

    /// Forget the servers of a Pane that closed; whether there were any.
    pub fn pane_closed(&mut self, pane: PaneId) -> (changed: bool)
        requires
            old(self).wf(),
        ensures
            final(self).wf(),
            final(self).next == old(self).next,
            final(self).list@ == old(self).list@.filter(of_other(pane)),
            changed == (final(self).list@.len() != old(self).list@.len()),
    {
        let ghost given = self.list@;
        let mut rest: Vec<DevServer> = Vec::new();
        std::mem::swap(&mut rest, &mut self.list);
        let before: usize = rest.len();
        let ghost mut i: int = 0;
        proof {
            lemma_filter_none(given, of_other(pane));
            assert(rest@ =~= given.skip(0));
        }
        while rest.len() > 0
            invariant
                0 <= i <= given.len(),
                keys_distinct(given),
                rest@ == given.skip(i),
                self.next == old(self).next,
                self.list@ == given.take(i).filter(of_other(pane)),
                self.list@.len() <= i,
                keys_distinct(self.list@),
                forall|k: int|
                    0 <= k < self.list@.len() ==> given.take(i).contains(#[trigger] self.list@[k]),
            decreases rest@.len(),
        {
            let one = rest.remove(0);
            let ghost held = self.list@;
            assert(one == given[i]);
            assert(rest@ =~= given.skip(i + 1));
            proof {
                lemma_filter_step(given, i, of_other(pane));
            }
            if one.pane != pane {
                self.list.push(one);
            }
            proof {
                let now = self.list@;
                assert forall|k: int| 0 <= k < now.len() implies given.take(i + 1).contains(
                    #[trigger] now[k],
                ) by {
                    if k < held.len() {
                        assert(given.take(i).contains(held[k]));
                        let j = choose|j: int| 0 <= j < i && given.take(i)[j] == held[k];
                        assert(given.take(i + 1)[j] == held[k]);
                    } else {
                        assert(given.take(i + 1)[i] == now[k]);
                    }
                }
                assert forall|a: int, b: int| 0 <= a < b < now.len() implies !((
                #[trigger] now[a]).pane == (#[trigger] now[b]).pane && now[a].port
                    == now[b].port) by {
                    if b == held.len() {
                        assert(given.take(i).contains(held[a]));
                        let j = choose|j: int| 0 <= j < i && given.take(i)[j] == held[a];
                        assert(given[j] == now[a]);
                        assert(given[i] == now[b]);
                    }
                }
                i = i + 1;
            }
        }
        assert(given.take(i) =~= given);
        self.list.len() != before
    }
}

} // verus!
