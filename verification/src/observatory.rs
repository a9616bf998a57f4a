//! What the right sidebar lists: the agents at work, and the web servers that
//! run in Panes.
use crate::detection::AgentStatus;
use crate::hierarchy::{tabs_of, window_of, Workspace, WorkspaceState};
use crate::listings::{capped32, label_tab, ordinal, tab_label};
use crate::notify::{place_of, tab_place};
use crate::order::{precedes, text_precedes};
use crate::text::same_text;
use crate::types::{PaneId, ProjectId};
use vstd::prelude::*;

verus! {

/// An agent that is bound to a Pane.
#[derive(Debug)]
pub struct BoundAgent {
    pub pane: PaneId,
    pub id: String,
    pub status: AgentStatus,
}

/// One agent of a listing.
#[derive(Debug)]
pub struct FleetEntry {
    pub agent: String,
    pub status: AgentStatus,
    pub pane_id: PaneId,
    pub project: ProjectId,
    pub project_name: String,
    pub tab: u32,
    pub tab_name: String,
    pub window: u32,
    pub pane: u32,
}

/// What a listing says of one agent.
pub struct FleetLine {
    pub agent: Seq<char>,
    pub status: AgentStatus,
    pub pane_id: PaneId,
    pub project: ProjectId,
    pub project_name: Seq<char>,
    pub tab: u32,
    pub tab_name: Seq<char>,
    pub window: u32,
    pub pane: u32,
}

/// What an entry says.
pub open spec fn fleet_line(e: FleetEntry) -> FleetLine {
    FleetLine {
        agent: e.agent@,
        status: e.status,
        pane_id: e.pane_id,
        project: e.project,
        project_name: e.project_name@,
        tab: e.tab,
        tab_name: e.tab_name@,
        window: e.window,
        pane: e.pane,
    }
}

/// What a listing says.
pub open spec fn fleet_lines(list: Seq<FleetEntry>) -> Seq<FleetLine> {
    Seq::new(list.len(), |i: int| fleet_line(list[i]))
}

/// The first agent bound to a Pane, from position `i` on.
pub open spec fn bound_at(agents: Seq<BoundAgent>, pane: PaneId, i: int) -> Option<int>
    decreases agents.len() - i,
{
    if i < 0 || i >= agents.len() {
        None
    } else if agents[i].pane == pane {
        Some(i)
    } else {
        bound_at(agents, pane, i + 1)
    }
}

fn find_bound(agents: &Vec<BoundAgent>, pane: PaneId) -> (found: Option<usize>)
    ensures
        crate::hierarchy::index_of(found) == bound_at(agents@, pane, 0),
        found matches Some(i) ==> i < agents@.len(),
{
    let mut i: usize = 0;
    while i < agents.len()
        invariant
            i <= agents@.len(),
            bound_at(agents@, pane, 0) == bound_at(agents@, pane, i as int),
        decreases agents@.len() - i,
    {
        if agents[i].pane == pane {
            return Some(i);
        }
        i += 1;
    }
    None
}

/// The name that a Project goes by.
pub open spec fn project_label(s: WorkspaceState, id: ProjectId) -> Seq<char> {
    match crate::hierarchy::project_at(s.projects, id) {
        Some(p) => s.projects[p].name@,
        None => "Project"@,
    }
}

/// The number of a Tab in its Project's Tab bar, from one.
pub open spec fn tab_number(s: WorkspaceState, w: int) -> u32 {
    capped32(tab_place(tabs_of(s.windows, s.windows[w].project), w, 0) + 1)
}

impl WorkspaceState {
    /// The line of the agent at `a`, in the Pane at position `k` of a Tab.
    pub open spec fn fleet_at(self, agents: Seq<BoundAgent>, w: int, k: int, a: int) -> FleetLine {
        let win = self.windows[w];
        FleetLine {
            agent: agents[a].id@,
            status: agents[a].status,
            pane_id: win.layout.panes()[k],
            project: win.project,
            project_name: project_label(self, win.project),
            tab: tab_number(self, w),
            tab_name: tab_label(win.name, tab_number(self, w)),
            window: capped32(w + 1),
            pane: capped32(k + 1),
        }
    }

    /// The lines of the agents in the first `n` Panes of a Tab that wait for a
    /// human, or of those that do not.
    pub open spec fn tab_fleet(self, agents: Seq<BoundAgent>, waits: bool, w: int, n: nat) -> Seq<
        FleetLine,
    >
        decreases n,
    {
        if n == 0 {
            Seq::empty()
        } else {
            let rest = self.tab_fleet(agents, waits, w, (n - 1) as nat);
            match bound_at(agents, self.windows[w].layout.panes()[n - 1], 0) {
                Some(a) => if agents[a].status.waits() == waits {
                    rest.push(self.fleet_at(agents, w, n - 1, a))
                } else {
                    rest
                },
                None => rest,
            }
        }
    }

    /// The lines of the agents in the first `n` Tabs.
    pub open spec fn fleet(self, agents: Seq<BoundAgent>, waits: bool, n: nat) -> Seq<FleetLine>
        decreases n,
    {
        if n == 0 {
            Seq::empty()
        } else {
            self.fleet(agents, waits, (n - 1) as nat) + self.tab_fleet(
                agents,
                waits,
                n - 1,
                self.windows[n - 1].layout.panes().len(),
            )
        }
    }
}

impl Workspace {
    fn name_of_project(&self, id: ProjectId) -> (name: String)
        ensures
            name@ == project_label(self@, id),
    {
        match self.project_position(id) {
            Some(p) => self.projects[p].name.clone(),
            None => "Project".to_owned(),
        }
    }

    fn list_fleet(&self, agents: &Vec<BoundAgent>, waits: bool, list: &mut Vec<FleetEntry>)
        ensures
            fleet_lines(final(list)@) == fleet_lines(old(list)@) + self@.fleet(
                agents@,
                waits,
                self@.windows.len(),
            ),
    {
        let ghost first = fleet_lines(list@);
        let mut w: usize = 0;
        assert(fleet_lines(list@) =~= first + self@.fleet(agents@, waits, 0));
        while w < self.windows.len()
            invariant
                w <= self@.windows.len(),
                fleet_lines(list@) == first + self@.fleet(agents@, waits, w as nat),
            decreases self@.windows.len() - w,
        {
            let project = self.windows[w].project;
            let tabs = self.project_window_indices(project);
            let tab: u32 = ordinal(place_of(&tabs, w));
            assert(tab == tab_number(self@, w as int));
            let panes = self.windows[w].layout.pane_ids();
            let ghost head = fleet_lines(list@);
            let mut k: usize = 0;
            assert(fleet_lines(list@) =~= head + self@.tab_fleet(agents@, waits, w as int, 0));
            while k < panes.len()
                invariant
                    w < self@.windows.len(),
                    k <= panes@.len(),
                    panes@ == self@.windows[w as int].layout.panes(),
                    project == self@.windows[w as int].project,
                    tab == tab_number(self@, w as int),
                    fleet_lines(list@) == head + self@.tab_fleet(
                        agents@,
                        waits,
                        w as int,
                        k as nat,
                    ),
                decreases panes@.len() - k,
            {
                let ghost before = list@;
                match find_bound(agents, panes[k]) {
                    Some(a) => {
                        if agents[a].status.needs_human() == waits {
                            let e = FleetEntry {
                                agent: agents[a].id.clone(),
                                status: agents[a].status,
                                pane_id: panes[k],
                                project,
                                project_name: self.name_of_project(project),
                                tab,
                                tab_name: label_tab(&self.windows[w].name, tab),
                                window: ordinal(w),
                                pane: ordinal(k),
                            };
                            let ghost line = fleet_line(e);
                            list.push(e);
                            assert(line == self@.fleet_at(agents@, w as int, k as int, a as int));
                            assert(fleet_lines(list@) =~= fleet_lines(before).push(line));
                        }
                    },
                    None => {},
                }
                k += 1;
                assert(fleet_lines(list@) =~= head + self@.tab_fleet(
                    agents@,
                    waits,
                    w as int,
                    k as nat,
                ));
            }
            w += 1;
            assert(fleet_lines(list@) =~= first + self@.fleet(agents@, waits, w as nat));
        }
    }

    /// List the agents at work: those that wait for a human first, otherwise by
    /// Tab and place.
    pub fn fleet_snapshot(&self, agents: &Vec<BoundAgent>) -> (list: Vec<FleetEntry>)
        ensures
            fleet_lines(list@) == self@.fleet(agents@, true, self@.windows.len()) + self@.fleet(
                agents@,
                false,
                self@.windows.len(),
            ),
    {
        let mut list: Vec<FleetEntry> = Vec::new();
        self.list_fleet(agents, true, &mut list);
        assert(fleet_lines(list@) =~= self@.fleet(agents@, true, self@.windows.len()));
        self.list_fleet(agents, false, &mut list);
        list
    }
}

/// A web server that was detected in a Pane.
#[derive(Debug)]
pub struct DevServer {
    pub pane: PaneId,
    pub port: u16,
    /// When it was detected; later is newer.
    pub detected: u64,
    pub label: String,
    pub url: String,
    pub stopping: bool,
}

/// One web server of a listing.
#[derive(Debug)]
pub struct DevServerEntry {
    pub label: String,
    pub url: String,
    pub port: u16,
    pub pane_id: PaneId,
    pub project: ProjectId,
    pub project_name: String,
    pub project_root: String,
    pub tab: u32,
    pub tab_name: String,
    pub pane: u32,
}

/// The position of a Pane in a list, from position `i` on; zero where it is not
/// listed.
pub open spec fn pane_place(panes: Seq<PaneId>, pane: PaneId, i: int) -> int
    decreases panes.len() - i,
{
    if i < 0 || i >= panes.len() {
        0
    } else if panes[i] == pane {
        i
    } else {
        pane_place(panes, pane, i + 1)
    }
}

fn place_of_pane(panes: &Vec<PaneId>, pane: PaneId) -> (place: usize)
    ensures
        place == pane_place(panes@, pane, 0),
{
    let mut i: usize = 0;
    while i < panes.len()
        invariant
            i <= panes@.len(),
            pane_place(panes@, pane, 0) == pane_place(panes@, pane, i as int),
        decreases panes@.len() - i,
    {
        if panes[i] == pane {
            return i;
        }
        i += 1;
    }
    0
}

impl WorkspaceState {
    /// The server is listed: a Tab shows its Pane, in a Project that is asked
    /// for.
    pub open spec fn lists(self, server: DevServer, wanted: Option<ProjectId>) -> bool {
        match window_of(self.windows, server.pane) {
            Some(w) => {
                &&& crate::hierarchy::project_at(self.projects, self.windows[w].project) is Some
                &&& wanted matches Some(id) ==> self.windows[w].project == id
            },
            None => false,
        }
    }

    /// An entry says where a server runs.
    pub open spec fn describes(self, server: DevServer, e: DevServerEntry) -> bool {
        let w = window_of(self.windows, server.pane)->0;
        let win = self.windows[w];
        let project = self.projects[crate::hierarchy::project_at(self.projects, win.project)->0];
        &&& e.label == server.label
        &&& e.url == server.url
        &&& e.port == server.port
        &&& e.pane_id == server.pane
        &&& e.project == project.id
        &&& e.project_name == project.name
        &&& e.project_root == project.root
        &&& e.tab == tab_number(self, w)
        &&& e.tab_name@ == tab_label(win.name, tab_number(self, w))
        &&& e.pane == capped32(pane_place(win.layout.panes(), server.pane, 0) + 1)
    }

    /// The server is listed, and none that is listed at its port is newer.
    pub open spec fn newest_at_port(
        self,
        servers: Seq<DevServer>,
        wanted: Option<ProjectId>,
        i: int,
        n: int,
    ) -> bool {
        &&& 0 <= i < n
        &&& self.lists(servers[i], wanted)
        &&& forall|j: int|
            0 <= j < n && self.lists(#[trigger] servers[j], wanted) && servers[j].port
                == servers[i].port ==> servers[j].detected <= servers[i].detected
    }
}

/// One entry stands before another: by Project name, by port within.
pub open spec fn entry_before(a: DevServerEntry, b: DevServerEntry) -> bool {
    precedes(a.project_name@, b.project_name@) || (a.project_name@ == b.project_name@ && a.port
        < b.port)
}

/// The entries stand in order, each port once.
pub open spec fn entries_ordered(list: Seq<DevServerEntry>) -> bool {
    &&& forall|i: int, j: int|
        0 <= i < j < list.len() ==> entry_before(#[trigger] list[i], #[trigger] list[j])
    &&& forall|i: int, j: int|
        0 <= i < j < list.len() ==> (#[trigger] list[i]).port != (#[trigger] list[j]).port
}

fn is_before(a: &DevServerEntry, b: &DevServerEntry) -> (before: bool)
    ensures
        before == entry_before(*a, *b),
{
    text_precedes(a.project_name.as_str(), b.project_name.as_str()) || (same_text(
        a.project_name.as_str(),
        b.project_name.as_str(),
    ) && a.port < b.port)
}

proof fn lemma_before_transitive(a: DevServerEntry, b: DevServerEntry, c: DevServerEntry)
    requires
        entry_before(a, b),
        entry_before(b, c),
    ensures
        entry_before(a, c),
{
    if precedes(a.project_name@, b.project_name@) && precedes(b.project_name@, c.project_name@) {
        crate::order::lemma_precedes_transitive(a.project_name@, b.project_name@, c.project_name@);
    }
}

proof fn lemma_before_total(a: DevServerEntry, b: DevServerEntry)
    requires
        a.port != b.port,
    ensures
        entry_before(a, b) || entry_before(b, a),
{
    crate::order::lemma_precedes_total(a.project_name@, b.project_name@);
}

fn insert_entry(list: &mut Vec<DevServerEntry>, e: DevServerEntry)
    requires
        entries_ordered(old(list)@),
        forall|i: int| 0 <= i < old(list)@.len() ==> (#[trigger] old(list)@[i]).port != e.port,
    ensures
        entries_ordered(final(list)@),
        final(list)@.len() == old(list)@.len() + 1,
        exists|k: int|
            0 <= k <= old(list)@.len() && final(list)@ == #[trigger] old(list)@.insert(k, e),
{
    let ghost before = list@;
    let mut k: usize = 0;
    while k < list.len() && is_before(&list[k], &e)
        invariant
            k <= list@.len(),
            list@ == before,
            forall|i: int| 0 <= i < k ==> entry_before(#[trigger] before[i], e),
        decreases list@.len() - k,
    {
        k += 1;
    }
    proof {
        if k < before.len() {
            lemma_before_total(before[k as int], e);
        }
    }
    let ghost added = e;
    list.insert(k, e);
    proof {
        let after = list@;
        assert(after == before.insert(k as int, added));
        assert forall|i: int, j: int| 0 <= i < j < after.len() implies entry_before(
            #[trigger] after[i],
            #[trigger] after[j],
        ) && after[i].port != after[j].port by {
            if i < k {
                assert(after[i] == before[i]);
                if j > k {
                    assert(after[j] == before[j - 1]);
                } else if j < k {
                    assert(after[j] == before[j]);
                }
            } else if i == k {
                assert(after[j] == before[j - 1]);
                if j - 1 > k {
                    lemma_before_transitive(added, before[k as int], before[j - 1]);
                }
            } else {
                assert(after[i] == before[i - 1]);
                assert(after[j] == before[j - 1]);
            }
        }
    }
}

impl Workspace {
    fn is_listed(&self, server: &DevServer, wanted: Option<ProjectId>) -> (listed: bool)
        ensures
            listed == self@.lists(*server, wanted),
    {
        match self.window_of(server.pane) {
            Some(w) => {
                let project = self.windows[w].project;
                if self.project_position(project).is_none() {
                    return false;
                }
                match wanted {
                    Some(id) => project == id,
                    None => true,
                }
            },
            None => false,
        }
    }

    fn describe(&self, server: &DevServer) -> (e: Option<DevServerEntry>)
        ensures
            match e {
                Some(entry) => self@.describes(*server, entry),
                None => !self@.lists(*server, None),
            },
    {
        let w: usize = self.window_of(server.pane)?;
        let p: usize = self.project_position(self.windows[w].project)?;
        let tabs = self.project_window_indices(self.windows[w].project);
        let tab: u32 = ordinal(place_of(&tabs, w));
        let panes = self.windows[w].layout.pane_ids();
        Some(
            DevServerEntry {
                label: server.label.clone(),
                url: server.url.clone(),
                port: server.port,
                pane_id: server.pane,
                project: self.projects[p].id,
                project_name: self.projects[p].name.clone(),
                project_root: self.projects[p].root.clone(),
                tab,
                tab_name: label_tab(&self.windows[w].name, tab),
                pane: ordinal(place_of_pane(&panes, server.pane)),
            },
        )
    }

    /// Whether no listed server at the same port is newer, or as new and before
    /// it.
    fn wins_port(&self, servers: &Vec<DevServer>, wanted: Option<ProjectId>, i: usize) -> (wins:
        bool)
        requires
            i < servers@.len(),
            self@.lists(servers@[i as int], wanted),
        ensures
            wins == self@.wins(servers@, wanted, i as int),
    {
        let mut j: usize = 0;
        while j < servers.len()
            invariant
                i < servers@.len(),
                j <= servers@.len(),
                forall|k: int|
                    0 <= k < j && self@.lists(#[trigger] servers@[k], wanted) && servers@[k].port
                        == servers@[i as int].port ==> !beats(servers@, k, i as int),
            decreases servers@.len() - j,
        {
            if servers[j].port == servers[i].port && self.is_listed(&servers[j], wanted) && (
            servers[j].detected > servers[i].detected || (servers[j].detected
                == servers[i].detected && j < i)) {
                assert(beats(servers@, j as int, i as int));
                return false;
            }
            j += 1;
        }
        true
    }

    /// List the web servers: of those at one port only the newest, by Project
    /// name and port.
    pub fn dev_server_snapshot(&self, servers: &Vec<DevServer>, wanted: Option<ProjectId>) -> (list:
        Vec<DevServerEntry>)
        ensures
            entries_ordered(list@),
            forall|k: int|
                0 <= k < list@.len() ==> self@.newest_entry(servers@, wanted, #[trigger] list@[k]),
            forall|j: int|
                0 <= j < servers@.len() && self@.lists(#[trigger] servers@[j], wanted)
                    ==> has_port(list@, servers@[j].port),
    {
        let mut list: Vec<DevServerEntry> = Vec::new();
        let mut i: usize = 0;
        while i < servers.len()
            invariant
                i <= servers@.len(),
                entries_ordered(list@),
                forall|k: int|
                    0 <= k < list@.len() ==> self@.winning_entry(
                        servers@,
                        wanted,
                        i as int,
                        #[trigger] list@[k],
                    ),
                forall|m: int|
                    0 <= m < i && self@.lists(#[trigger] servers@[m], wanted) && self@.wins(
                        servers@,
                        wanted,
                        m,
                    ) ==> has_port(list@, servers@[m].port),
            decreases servers@.len() - i,
        {
            let ghost before = list@;
            proof {
                assert forall|k: int| 0 <= k < before.len() implies self@.winning_entry(
                    servers@,
                    wanted,
                    i + 1,
                    #[trigger] before[k],
                ) by {
                    assert(self@.winning_entry(servers@, wanted, i as int, before[k]));
                    let m = self@.winner(servers@, wanted, i as int, before[k]);
                    assert(self@.describes(servers@[m], before[k]));
                }
            }
            if self.is_listed(&servers[i], wanted) && self.wins_port(servers, wanted, i) {
                let Some(e) = self.describe(&servers[i]) else {
                    return list;
                };
                proof {
                    assert forall|k: int| 0 <= k < before.len() implies (
                    #[trigger] before[k]).port != e.port by {
                        assert(self@.winning_entry(servers@, wanted, i as int, before[k]));
                        let m = self@.winner(servers@, wanted, i as int, before[k]);
                        if before[k].port == e.port {
                            assert(beats(servers@, m, i as int) || beats(servers@, i as int, m));
                            assert(self@.lists(servers@[m], wanted));
                            assert(self@.lists(servers@[i as int], wanted));
                        }
                    }
                }
                let ghost added = e;
                insert_entry(&mut list, e);
                proof {
                    let k0 = choose|k: int|
                        0 <= k <= before.len() && list@ == #[trigger] before.insert(k, added);
                    assert forall|k: int| 0 <= k < list@.len() implies self@.winning_entry(
                        servers@,
                        wanted,
                        i + 1,
                        #[trigger] list@[k],
                    ) by {
                        if k == k0 {
                            assert(self@.describes(servers@[i as int], list@[k]));
                        } else {
                            let old_k = if k < k0 {
                                k
                            } else {
                                k - 1
                            };
                            assert(list@[k] == before[old_k]);
                            assert(self@.winning_entry(servers@, wanted, i as int, before[old_k]));
                            let m = self@.winner(servers@, wanted, i as int, before[old_k]);
                            assert(self@.describes(servers@[m], list@[k]));
                        }
                    }
                    assert forall|m: int|
                        0 <= m < i + 1 && self@.lists(#[trigger] servers@[m], wanted) && self@.wins(
                            servers@,
                            wanted,
                            m,
                        ) implies has_port(list@, servers@[m].port) by {
                        if m == i {
                            assert(list@[k0].port == servers@[m].port);
                        } else {
                            assert(has_port(before, servers@[m].port));
                            let q = choose|q: int|
                                0 <= q < before.len() && (#[trigger] before[q]).port
                                    == servers@[m].port;
                            if q < k0 {
                                assert(list@[q].port == servers@[m].port);
                            } else {
                                assert(list@[q + 1].port == servers@[m].port);
                            }
                        }
                    }
                }
            }
            i += 1;
        }
        proof {
            assert forall|k: int| 0 <= k < list@.len() implies self@.newest_entry(
                servers@,
                wanted,
                #[trigger] list@[k],
            ) by {
                assert(self@.winning_entry(servers@, wanted, i as int, list@[k]));
                let m = self@.winner(servers@, wanted, i as int, list@[k]);
                assert forall|j: int|
                    0 <= j < servers@.len() && self@.lists(#[trigger] servers@[j], wanted)
                        && servers@[j].port == servers@[m].port implies servers@[j].detected
                    <= servers@[m].detected by {
                    assert(!beats(servers@, j, m));
                }
                assert(self@.newest_at_port(servers@, wanted, m, servers@.len() as int));
            }
            assert forall|j: int|
                0 <= j < servers@.len() && self@.lists(
                    #[trigger] servers@[j],
                    wanted,
                ) implies has_port(list@, servers@[j].port) by {
                let m = self@.champion(servers@, wanted, j, servers@.len());
                lemma_champion(self@, servers@, wanted, j, servers@.len());
                assert(self@.lists(servers@[m], wanted));
            }
        }
        list
    }
}

/// Some entry has this port.
pub open spec fn has_port(list: Seq<DevServerEntry>, port: u16) -> bool {
    exists|k: int| 0 <= k < list.len() && (#[trigger] list[k]).port == port
}

/// One server takes its port from another: it is newer, or as new and listed
/// before.
pub open spec fn beats(servers: Seq<DevServer>, a: int, b: int) -> bool {
    servers[a].detected > servers[b].detected || (servers[a].detected == servers[b].detected && a
        < b)
}

impl WorkspaceState {
    /// No listed server takes its port.
    pub open spec fn wins(self, servers: Seq<DevServer>, wanted: Option<ProjectId>, i: int) -> bool {
        forall|k: int|
            0 <= k < servers.len() && self.lists(#[trigger] servers[k], wanted) && servers[k].port
                == servers[i].port ==> !beats(servers, k, i)
    }

    /// The entry describes a listed server, among the first `n`, that no other
    /// takes the port from.
    pub open spec fn winning_entry(
        self,
        servers: Seq<DevServer>,
        wanted: Option<ProjectId>,
        n: int,
        e: DevServerEntry,
    ) -> bool {
        exists|m: int|
            0 <= m < n && self.lists(servers[m], wanted) && self.wins(servers, wanted, m)
                && #[trigger] self.describes(servers[m], e)
    }

    spec fn winner(
        self,
        servers: Seq<DevServer>,
        wanted: Option<ProjectId>,
        n: int,
        e: DevServerEntry,
    ) -> int {
        choose|m: int|
            0 <= m < n && self.lists(servers[m], wanted) && self.wins(servers, wanted, m)
                && #[trigger] self.describes(servers[m], e)
    }

    /// The entry describes the newest listed server at its port.
    pub open spec fn newest_entry(
        self,
        servers: Seq<DevServer>,
        wanted: Option<ProjectId>,
        e: DevServerEntry,
    ) -> bool {
        exists|m: int|
            self.newest_at_port(servers, wanted, m, servers.len() as int)
                && #[trigger] self.describes(servers[m], e)
    }

    /// The listed server, among the first `n` and the one at `j`, that holds the
    /// port of the one at `j`.
    pub open spec fn champion(
        self,
        servers: Seq<DevServer>,
        wanted: Option<ProjectId>,
        j: int,
        n: nat,
    ) -> int
        decreases n,
    {
        if n == 0 {
            j
        } else {
            let best = self.champion(servers, wanted, j, (n - 1) as nat);
            if self.lists(servers[n - 1], wanted) && servers[n - 1].port == servers[j].port && beats(
                servers,
                n - 1,
                best,
            ) {
                n - 1
            } else {
                best
            }
        }
    }
}

proof fn lemma_champion(
    s: WorkspaceState,
    servers: Seq<DevServer>,
    wanted: Option<ProjectId>,
    j: int,
    n: nat,
)
    requires
        0 <= j < servers.len(),
        n <= servers.len(),
        s.lists(servers[j], wanted),
    ensures
        ({
            let m = s.champion(servers, wanted, j, n);
            &&& 0 <= m < servers.len()
            &&& s.lists(servers[m], wanted)
            &&& servers[m].port == servers[j].port
            &&& forall|k: int|
                0 <= k < n && s.lists(#[trigger] servers[k], wanted) && servers[k].port
                    == servers[j].port ==> !beats(servers, k, m)
        }),
    decreases n,
{
    if n > 0 {
        lemma_champion(s, servers, wanted, j, (n - 1) as nat);
    }
}

/// What a click on a web server asks for.
#[derive(Clone, Copy, Debug, PartialEq, Eq, Structural)]
pub enum ServerAction {
    Open,
    Focus,
    Stop,
}

/// What to do for it.
#[derive(Debug)]
pub enum ServerStep {
    Nothing,
    /// Open the address at the client.
    Open(String),
    Focus(PaneId),
    /// Stop the server of this session.
    Stop { session: i32 },
}

/// Carry out an action on a web server that was seen at `detected`. One that
/// was replaced since is left alone, and a server is stopped once. `session` is
/// the process of its Pane.
pub fn run_dev_server_action(
    server: &mut DevServer,
    detected: u64,
    action: ServerAction,
    session: Option<i32>,
) -> (step: ServerStep)
    ensures
        ({
            let stops = old(server).detected == detected && action == ServerAction::Stop && !old(
                server,
            ).stopping && session is Some;
            &&& *final(server) == if stops {
                DevServer { stopping: true, ..*old(server) }
            } else {
                *old(server)
            }
            &&& step == if old(server).detected != detected {
                ServerStep::Nothing
            } else {
                match action {
                    ServerAction::Open => ServerStep::Open(old(server).url),
                    ServerAction::Focus => ServerStep::Focus(old(server).pane),
                    ServerAction::Stop => if stops {
                        ServerStep::Stop { session: session->0 }
                    } else {
                        ServerStep::Nothing
                    },
                }
            }
        }),
{
    if server.detected != detected {
        return ServerStep::Nothing;
    }
    match action {
        ServerAction::Open => ServerStep::Open(server.url.clone()),
        ServerAction::Focus => ServerStep::Focus(server.pane),
        ServerAction::Stop => {
            if server.stopping {
                return ServerStep::Nothing;
            }
            match session {
                Some(session) => {
                    server.stopping = true;
                    ServerStep::Stop { session }
                },
                None => ServerStep::Nothing,
            }
        },
    }
}

/// Whether an agent card still stands for the agent that it showed.
pub fn same_agent(
    started_at: u64,
    foreground_pid: Option<i32>,
    now_started_at: u64,
    now_foreground_pid: Option<i32>,
) -> (same: bool)
    ensures
        same == (started_at == now_started_at && foreground_pid == now_foreground_pid),
{
    if started_at != now_started_at {
        return false;
    }
    match (foreground_pid, now_foreground_pid) {
        (None, None) => true,
        (Some(a), Some(b)) => a == b,
        _ => false,
    }
}

} // verus!
