//! What the lists of the server can rely on: who is listed, under which number,
//! in which order, and what an entry says.
use crate::artifact::{observed_change, without, ArtifactId, ArtifactObservation, ArtifactRecord};
use crate::catalog::{
    custom_entry, live_line, occurrences, provider_entry, sorted_by_name, with_live, AgentInfo,
    CatalogLine, LiveCounts, ProviderState,
};
use crate::dev_servers::{noted, of_other, server_at, FoundServer};
use crate::hierarchy::{project_at, tabs_of, window_of, Win, WorkspaceState};
use crate::launch::{provider_at, restored_cwd, resume_line, ProviderRules};
use crate::listings::{
    among, capped32, colon_at, joined_path, move_label, project_folder, project_panes, tab_label,
    tagged, MoveTarget, StopScope,
};
use crate::lists::lemma_filter_holds;
use crate::observatory::{
    bound_at, entry_before, pane_place, project_label, tab_number, BoundAgent, DevServer,
    DevServerEntry,
};
use crate::order::precedes;
use crate::search_path::{acceptable, searchable, texts, total_bytes};
use crate::text::{decimal, lemma_decimal_is_the_number, number_of, trimmed};
use crate::types::{PaneId, ProjectId};
use vstd::prelude::*;

verus! {

/// A Pane is listed under its Project, the place of its Tab and its own place,
/// both counted from one; it is the active one where it has the focus of the
/// shown Tab.
pub proof fn lemma_line_says_where_the_pane_is(s: WorkspaceState, p: int, t: int, k: int)
    requires
        0 <= t < u32::MAX,
        0 <= k < u32::MAX,
    ensures
        ({
            let line = s.line_at(p, t, k);
            let w = tabs_of(s.windows, s.projects[p].id)[t] as int;
            &&& line.id == s.windows[w].layout.panes()[k]
            &&& line.project == s.projects[p].id
            &&& line.project_name == s.projects[p].name@
            &&& line.tab == t + 1
            &&& line.pane == k + 1
            &&& s.windows[w].name is Some ==> line.tab_name == s.windows[w].name->0@
            &&& line.active <==> s.active_window == w && s.windows[w].active == line.id
        }),
{
}

/// A Tab without a name goes by its number.
pub proof fn lemma_tab_goes_by_its_number(tab: u32) -> (number: Seq<char>)
    ensures
        number_of(number) == tab,
        tab_label(None, tab) == "Tab "@ + number,
{
    lemma_decimal_is_the_number(tab as nat);
    decimal(tab as nat)
}

proof fn lemma_listed_in_project(s: WorkspaceState, p: int, n: nat, t: int, k: int)
    requires
        0 <= t < n,
        0 <= k < s.windows[s.tab_at(p, t)].layout.panes().len(),
    ensures
        s.project_lines(p, n).contains(s.line_at(p, t, k)),
    decreases n,
{
    let rest = s.project_lines(p, (n - 1) as nat);
    let last = s.tab_lines(p, n - 1, s.windows[s.tab_at(p, n - 1)].layout.panes().len());
    let out = s.project_lines(p, n);
    let line = s.line_at(p, t, k);
    if t == n - 1 {
        assert(last[k] == line);
        assert(out[rest.len() + k] == line);
    } else {
        lemma_listed_in_project(s, p, (n - 1) as nat, t, k);
        let at = choose|at: int| 0 <= at < rest.len() && rest[at] == line;
        assert(out[at] == line);
    }
}

proof fn lemma_listed_upto(s: WorkspaceState, n: nat, p: int, t: int, k: int)
    requires
        0 <= p < n,
        0 <= t < tabs_of(s.windows, s.projects[p].id).len(),
        0 <= k < s.windows[s.tab_at(p, t)].layout.panes().len(),
    ensures
        s.all_lines(n).contains(s.line_at(p, t, k)),
    decreases n,
{
    let rest = s.all_lines((n - 1) as nat);
    let tabs = tabs_of(s.windows, s.projects[n - 1].id).len();
    let last = s.project_lines(n - 1, tabs);
    let out = s.all_lines(n);
    let line = s.line_at(p, t, k);
    if p == n - 1 {
        lemma_listed_in_project(s, p, tabs, t, k);
        let at = choose|at: int| 0 <= at < last.len() && last[at] == line;
        assert(out[rest.len() + at] == line);
    } else {
        lemma_listed_upto(s, (n - 1) as nat, p, t, k);
        let at = choose|at: int| 0 <= at < rest.len() && rest[at] == line;
        assert(out[at] == line);
    }
}

/// Every Pane of every Tab of every Project is listed.
pub proof fn lemma_every_pane_is_listed(s: WorkspaceState, p: int, t: int, k: int)
    requires
        0 <= p < s.projects.len(),
        0 <= t < tabs_of(s.windows, s.projects[p].id).len(),
        0 <= k < s.windows[tabs_of(s.windows, s.projects[p].id)[t] as int].layout.panes().len(),
    ensures
        s.all_lines(s.projects.len()).contains(s.line_at(p, t, k)),
{
    lemma_listed_upto(s, s.projects.len(), p, t, k);
}

proof fn lemma_moves(s: WorkspaceState, tabs: Seq<usize>, source: int, n: nat, k: int)
    requires
        n <= tabs.len(),
    ensures
        0 <= k < n && tabs[k] != source ==> s.moves_to(tabs, source, n).contains(
            (move_label(s.windows[tabs[k] as int].name, k + 1), MoveTarget::Tab(tabs[k])),
        ),
        forall|at: int|
            0 <= at < s.moves_to(tabs, source, n).len() ==> {
                let target = (#[trigger] s.moves_to(tabs, source, n)[at]).1;
                target is Tab && target->Tab_0 != source
            },
    decreases n,
{
    if n > 0 {
        let m = (n - 1) as nat;
        lemma_moves(s, tabs, source, m, k);
        let rest = s.moves_to(tabs, source, m);
        let out = s.moves_to(tabs, source, n);
        if 0 <= k < n && tabs[k] != source {
            let entry = (move_label(s.windows[tabs[k] as int].name, k + 1), MoveTarget::Tab(tabs[k]));
            if k == n - 1 {
                assert(out[out.len() - 1] == entry);
            } else {
                let at = choose|at: int| 0 <= at < rest.len() && rest[at] == entry;
                assert(out[at] == entry);
            }
        }
        assert forall|at: int| 0 <= at < out.len() implies {
            let target = (#[trigger] out[at]).1;
            target is Tab && target->Tab_0 != source
        } by {
            if at < rest.len() {
                assert(out[at] == rest[at]);
            }
        }
    }
}

/// A Pane can be moved to every other Tab of its Project, each under its number,
/// never to its own, and to a new one where it is not alone in its Tab.
pub proof fn lemma_where_a_pane_can_go(s: WorkspaceState, pane: PaneId, w: int, k: int)
    requires
        window_of(s.windows, pane) == Some(w),
        0 <= w < s.windows.len(),
    ensures
        ({
            let list = s.destinations(pane);
            let tabs = tabs_of(s.windows, s.windows[w].project);
            &&& 0 <= k < tabs.len() && tabs[k] != w ==> list.contains(
                (move_label(s.windows[tabs[k] as int].name, k + 1), MoveTarget::Tab(tabs[k])),
            )
            &&& forall|at: int|
                0 <= at < list.len() ==> {
                    let target = (#[trigger] list[at]).1;
                    &&& target is Tab ==> target->Tab_0 != w
                    &&& target is NewTab ==> s.windows[w].layout.panes().len() > 1
                }
            &&& s.windows[w].layout.panes().len() > 1 ==> list.len() > 0 && list.last().1 is NewTab
        }),
{
    let tabs = tabs_of(s.windows, s.windows[w].project);
    let others = s.moves_to(tabs, w, tabs.len());
    let list = s.destinations(pane);
    lemma_moves(s, tabs, w, tabs.len(), k);
    if 0 <= k < tabs.len() && tabs[k] != w {
        let entry = (move_label(s.windows[tabs[k] as int].name, k + 1), MoveTarget::Tab(tabs[k]));
        let at = choose|at: int| 0 <= at < others.len() && others[at] == entry;
        assert(list[at] == entry);
    }
    assert forall|at: int| 0 <= at < list.len() implies {
        let target = (#[trigger] list[at]).1;
        &&& target is Tab ==> target->Tab_0 != w
        &&& target is NewTab ==> s.windows[w].layout.panes().len() > 1
    } by {
        if at < others.len() {
            assert(list[at] == others[at]);
        }
    }
}

proof fn lemma_among_upto(list: Seq<PaneId>, n: nat, chosen: Seq<PaneId>, pane: PaneId)
    requires
        n <= list.len(),
    ensures
        among(list, n, chosen).contains(pane) <==> list.take(n as int).contains(pane)
            && chosen.contains(pane),
    decreases n,
{
    let head = list.take(n as int);
    let out = among(list, n, chosen);
    if n == 0 {
        assert(!head.contains(pane));
        assert(!out.contains(pane));
    } else {
        let m = (n - 1) as nat;
        lemma_among_upto(list, m, chosen, pane);
        let rest = among(list, m, chosen);
        let before = list.take(m as int);
        let last = list[n - 1];
        assert(head =~= before.push(last));
        assert(head.contains(pane) <==> before.contains(pane) || last == pane) by {
            if before.contains(pane) {
                let k = choose|k: int| 0 <= k < before.len() && before[k] == pane;
                assert(head[k] == pane);
            }
            if last == pane {
                assert(head[n - 1] == pane);
            }
            if head.contains(pane) {
                let k = choose|k: int| 0 <= k < head.len() && head[k] == pane;
                if k < m {
                    assert(before[k] == pane);
                }
            }
        }
        if chosen.contains(last) {
            assert(out.contains(pane) <==> rest.contains(pane) || last == pane) by {
                if rest.contains(pane) {
                    let k = choose|k: int| 0 <= k < rest.len() && rest[k] == pane;
                    assert(out[k] == pane);
                }
                if last == pane {
                    assert(out[out.len() - 1] == pane);
                }
                if out.contains(pane) {
                    let k = choose|k: int| 0 <= k < out.len() && out[k] == pane;
                    if k < rest.len() {
                        assert(rest[k] == pane);
                    }
                }
            }
        }
    }
}

/// Of the Panes in scope those are stopped that run an agent, all of them and
/// no others.
pub proof fn lemma_agents_in_scope(list: Seq<PaneId>, chosen: Seq<PaneId>, pane: PaneId)
    ensures
        among(list, list.len(), chosen).contains(pane) <==> list.contains(pane) && chosen.contains(
            pane,
        ),
{
    lemma_among_upto(list, list.len(), chosen, pane);
    assert(list.take(list.len() as int) =~= list);
}

proof fn lemma_project_panes_upto(windows: Seq<Win>, project: ProjectId, n: nat, pane: PaneId)
    requires
        n <= windows.len(),
    ensures
        project_panes(windows, project, n).contains(pane) <==> exists|i: int|
            0 <= i < n && (#[trigger] windows[i]).project == project
                && windows[i].layout.panes().contains(pane),
    decreases n,
{
    let out = project_panes(windows, project, n);
    if n == 0 {
        assert(!out.contains(pane));
    } else {
        let m = (n - 1) as nat;
        lemma_project_panes_upto(windows, project, m, pane);
        let rest = project_panes(windows, project, m);
        let last = windows[n - 1];
        if last.project == project {
            let more = last.layout.panes();
            assert(out.contains(pane) <==> rest.contains(pane) || more.contains(pane)) by {
                if rest.contains(pane) {
                    let k = choose|k: int| 0 <= k < rest.len() && rest[k] == pane;
                    assert(out[k] == pane);
                }
                if more.contains(pane) {
                    let k = choose|k: int| 0 <= k < more.len() && more[k] == pane;
                    assert(out[rest.len() + k] == pane);
                }
                if out.contains(pane) {
                    let k = choose|k: int| 0 <= k < out.len() && out[k] == pane;
                    if k < rest.len() {
                        assert(rest[k] == pane);
                    } else {
                        assert(more[k - rest.len()] == pane);
                    }
                }
            }
        }
        if rest.contains(pane) {
            let i = choose|i: int|
                0 <= i < m && (#[trigger] windows[i]).project == project
                    && windows[i].layout.panes().contains(pane);
            assert(0 <= i < n && windows[i].project == project);
        }
    }
}

/// The Panes of a Project are those in its Tabs.
pub proof fn lemma_panes_of_a_project(windows: Seq<Win>, project: ProjectId, pane: PaneId)
    ensures
        project_panes(windows, project, windows.len()).contains(pane) <==> exists|i: int|
            0 <= i < windows.len() && (#[trigger] windows[i]).project == project
                && windows[i].layout.panes().contains(pane),
{
    lemma_project_panes_upto(windows, project, windows.len(), pane);
}

/// A scope takes in the whole Workspace, one Project, or one Tab of the active
/// Project by its place; a Tab that is not there takes in nothing.
pub proof fn lemma_scope_takes_in(s: WorkspaceState, scope: StopScope, all: Seq<PaneId>)
    ensures
        scope is Workspace ==> s.scope_panes(scope, all) == all,
        scope is Project ==> s.scope_panes(scope, all) == project_panes(
            s.windows,
            scope->Project_0,
            s.windows.len(),
        ),
        scope is Tab && scope->Tab_0 < tabs_of(s.windows, s.active_project).len()
            ==> s.scope_panes(scope, all) == s.windows[tabs_of(
            s.windows,
            s.active_project,
        )[scope->Tab_0 as int] as int].layout.panes(),
        scope is Tab && scope->Tab_0 >= tabs_of(s.windows, s.active_project).len()
            ==> s.scope_panes(scope, all).len() == 0,
{
}

proof fn lemma_colon_from(text: Seq<char>, i: int, from: int)
    requires
        0 <= from <= i < text.len(),
        text[i] == ':',
        forall|k: int| 0 <= k < i ==> #[trigger] text[k] != ':',
    ensures
        colon_at(text, from) == Some(i),
    decreases i - from,
{
    if from < i {
        lemma_colon_from(text, i, from + 1);
    }
}

/// The title of a task names its Project between the mark and the first colon.
pub proof fn lemma_title_names_its_project(name: Seq<char>, rest: Seq<char>)
    requires
        forall|k: int| 0 <= k < name.len() ==> #[trigger] name[k] != ':',
        trimmed(name).len() > 0,
    ensures
        tagged("# project "@ + name + ":"@ + rest) == Some(trimmed(name)),
{
    reveal_strlit("# project ");
    reveal_strlit(":");
    let prefix = "# project "@;
    let title = prefix + name + ":"@ + rest;
    assert(title.take(prefix.len() as int) =~= prefix);
    let after = title.skip(prefix.len() as int);
    assert(after =~= name + ":"@ + rest);
    assert forall|k: int| 0 <= k < name.len() implies #[trigger] after[k] != ':' by {
        assert(after[k] == name[k]);
    }
    assert(after[name.len() as int] == ':');
    lemma_colon_from(after, name.len() as int, 0);
    assert(after.take(name.len() as int) =~= name);
}

/// A folder that starts at home is looked for there, an absolute one is taken
/// as it stands, and one at home needs a home.
pub proof fn lemma_folder_of_a_project(root: Seq<char>, home: Seq<char>)
    ensures
        project_folder("~"@, Some(home)) == Some(home),
        project_folder("~"@, None) is None,
        root.len() > 0 && root[0] != '~' ==> project_folder(root, Some(home)) == Some(root)
            && project_folder(root, None) == Some(root),
        root.len() >= 2 && root[0] == '~' && root[1] == '/' ==> project_folder(root, None) is None
            && project_folder(root, Some(home)) == Some(joined_path(home, root.skip(2))),
        root.len() > 0 && root[0] == '/' ==> joined_path(home, root) == root,
        home.len() > 0 && home.last() == '/' && !(root.len() > 0 && root[0] == '/') ==> joined_path(
            home,
            root,
        ) == home + root,
        home.len() > 0 && home.last() != '/' && !(root.len() > 0 && root[0] == '/') ==> joined_path(
            home,
            root,
        ) == home + seq!['/'] + root,
{
    reveal_strlit("~");
    if home.len() > 0 && home.last() != '/' && !(root.len() > 0 && root[0] == '/') {
        assert(home.push('/') + root =~= home + seq!['/'] + root);
    }
    if root.len() >= 2 {
        assert(root != "~"@);
    }
}

proof fn lemma_bound_from(agents: Seq<BoundAgent>, pane: PaneId, a: int, from: int)
    requires
        0 <= from <= a < agents.len(),
        agents[a].pane == pane,
        forall|k: int| 0 <= k < a ==> (#[trigger] agents[k]).pane != pane,
    ensures
        bound_at(agents, pane, from) == Some(a),
    decreases a - from,
{
    if from < a {
        assert(agents[from].pane != pane);
        lemma_bound_from(agents, pane, a, from + 1);
    }
}

proof fn lemma_fleet_of_tab(
    s: WorkspaceState,
    agents: Seq<BoundAgent>,
    waits: bool,
    w: int,
    n: nat,
    k: int,
    a: int,
)
    requires
        0 <= k < n,
        bound_at(agents, s.windows[w].layout.panes()[k], 0) == Some(a),
        agents[a].status.waits() == waits,
    ensures
        s.tab_fleet(agents, waits, w, n).contains(s.fleet_at(agents, w, k, a)),
    decreases n,
{
    let rest = s.tab_fleet(agents, waits, w, (n - 1) as nat);
    let out = s.tab_fleet(agents, waits, w, n);
    let line = s.fleet_at(agents, w, k, a);
    if k == n - 1 {
        assert(out[out.len() - 1] == line);
    } else {
        lemma_fleet_of_tab(s, agents, waits, w, (n - 1) as nat, k, a);
        let at = choose|at: int| 0 <= at < rest.len() && rest[at] == line;
        assert(out[at] == line);
    }
}

proof fn lemma_fleet_upto(
    s: WorkspaceState,
    agents: Seq<BoundAgent>,
    waits: bool,
    n: nat,
    w: int,
    k: int,
    a: int,
)
    requires
        0 <= w < n,
        0 <= k < s.windows[w].layout.panes().len(),
        bound_at(agents, s.windows[w].layout.panes()[k], 0) == Some(a),
        agents[a].status.waits() == waits,
    ensures
        s.fleet(agents, waits, n).contains(s.fleet_at(agents, w, k, a)),
    decreases n,
{
    let rest = s.fleet(agents, waits, (n - 1) as nat);
    let len = s.windows[n - 1].layout.panes().len();
    let last = s.tab_fleet(agents, waits, n - 1, len);
    let out = s.fleet(agents, waits, n);
    let line = s.fleet_at(agents, w, k, a);
    if w == n - 1 {
        lemma_fleet_of_tab(s, agents, waits, w, len, k, a);
        let at = choose|at: int| 0 <= at < last.len() && last[at] == line;
        assert(out[rest.len() + at] == line);
    } else {
        lemma_fleet_upto(s, agents, waits, (n - 1) as nat, w, k, a);
        let at = choose|at: int| 0 <= at < rest.len() && rest[at] == line;
        assert(out[at] == line);
    }
}

/// An agent in a Pane is listed with its status and its place: among those that
/// wait for a person where it does, among the others where it does not.
pub proof fn lemma_every_agent_has_a_line(
    s: WorkspaceState,
    agents: Seq<BoundAgent>,
    w: int,
    k: int,
    a: int,
)
    requires
        0 <= w < s.windows.len(),
        0 <= k < s.windows[w].layout.panes().len(),
        w < u32::MAX,
        k < u32::MAX,
        0 <= a < agents.len(),
        agents[a].pane == s.windows[w].layout.panes()[k],
        forall|j: int| 0 <= j < a ==> (#[trigger] agents[j]).pane != agents[a].pane,
    ensures
        ({
            let line = s.fleet_at(agents, w, k, a);
            let waits = agents[a].status is Permission || agents[a].status is Question;
            &&& line.agent == agents[a].id@
            &&& line.status == agents[a].status
            &&& line.pane_id == agents[a].pane
            &&& line.project == s.windows[w].project
            &&& line.window == w + 1
            &&& line.pane == k + 1
            &&& s.fleet(agents, waits, s.windows.len()).contains(line)
        }),
{
    lemma_bound_from(agents, agents[a].pane, a, 0);
    let waits = agents[a].status is Permission || agents[a].status is Question;
    lemma_fleet_upto(s, agents, waits, s.windows.len(), w, k, a);
}

/// A web server is listed where its Pane is shown, and only for its own Project
/// where one was asked for; of those on one port the newest speaks for it.
pub proof fn lemma_which_servers_are_listed(
    s: WorkspaceState,
    servers: Seq<DevServer>,
    wanted: Option<ProjectId>,
    i: int,
    j: int,
)
    requires
        0 <= i < servers.len(),
        0 <= j < servers.len(),
    ensures
        window_of(s.windows, servers[i].pane) is None ==> !s.lists(servers[i], wanted),
        s.lists(servers[i], wanted) && wanted is Some ==> s.windows[window_of(
            s.windows,
            servers[i].pane,
        )->0].project == wanted->0,
        s.lists(servers[i], wanted) ==> s.lists(servers[i], None),
        s.newest_at_port(servers, wanted, i, servers.len() as int) && s.lists(servers[j], wanted)
            && servers[j].port == servers[i].port ==> servers[j].detected <= servers[i].detected,
{
}

/// An entry of the list tells of its server: the address, the port, the Pane,
/// and the Project that the Pane belongs to.
pub proof fn lemma_entry_tells_of_its_server(s: WorkspaceState, server: DevServer, e: DevServerEntry)
    requires
        s.lists(server, None),
        s.describes(server, e),
    ensures
        e.url == server.url && e.label == server.label,
        e.port == server.port && e.pane_id == server.pane,
        ({
            let w = window_of(s.windows, server.pane)->0;
            let p = project_at(s.projects, s.windows[w].project)->0;
            &&& e.project == s.projects[p].id
            &&& e.project_name == s.projects[p].name
            &&& e.project_root == s.projects[p].root
        }),
{
}

/// The list goes by the name of the Project and within it by the port.
pub proof fn lemma_servers_are_ordered(a: DevServerEntry, b: DevServerEntry)
    ensures
        a.project_name@ == b.project_name@ && a.port < b.port ==> entry_before(a, b),
        precedes(a.project_name@, b.project_name@) ==> entry_before(a, b),
        entry_before(a, b) && a.project_name@ == b.project_name@ ==> a.port < b.port,
{
    crate::order::lemma_precedes_irreflexive(a.project_name@);
}

/// A Pane stands in its Tab where the list of the Tab has it.
pub proof fn lemma_pane_stands_in_its_tab(panes: Seq<PaneId>, pane: PaneId, i: int, from: int)
    requires
        0 <= from <= i < panes.len(),
        panes[i] == pane,
        forall|k: int| 0 <= k < i ==> #[trigger] panes[k] != pane,
    ensures
        pane_place(panes, pane, from) == i,
    decreases i - from,
{
    if from < i {
        lemma_pane_stands_in_its_tab(panes, pane, i, from + 1);
    }
}

proof fn lemma_server_from(list: Seq<DevServer>, i: int, from: int)
    requires
        0 <= from <= i < list.len(),
        forall|k: int|
            0 <= k < i ==> !((#[trigger] list[k]).pane == list[i].pane && list[k].port
                == list[i].port),
    ensures
        server_at(list, list[i].pane, list[i].port, from) == Some(i),
    decreases i - from,
{
    if from < i {
        assert(!(list[from].pane == list[i].pane && list[from].port == list[i].port));
        lemma_server_from(list, i, from + 1);
    }
}

proof fn lemma_no_server(list: Seq<DevServer>, pane: PaneId, port: u16, from: int)
    requires
        0 <= from,
        forall|k: int|
            0 <= k < list.len() ==> !((#[trigger] list[k]).pane == pane && list[k].port == port),
    ensures
        server_at(list, pane, port, from) is None,
    decreases list.len() - from,
{
    if from < list.len() {
        assert(!(list[from].pane == pane && list[from].port == port));
        lemma_no_server(list, pane, port, from + 1);
    }
}

/// A web server that was seen again as it was stays as it is; one that changed
/// is noted afresh and is no longer being stopped.
pub proof fn lemma_known_server_is_noted(
    list: Seq<DevServer>,
    next: u64,
    found: FoundServer,
    i: int,
    j: int,
)
    requires
        0 <= i < list.len(),
        0 <= j < list.len(),
        list[i].port == found.port,
        forall|k: int|
            0 <= k < i ==> !((#[trigger] list[k]).pane == list[i].pane && list[k].port
                == list[i].port),
    ensures
        ({
            let (after, count) = noted(list, next as int, list[i].pane, found);
            let same = list[i].label@ == found.label@ && list[i].url@ == found.url@;
            &&& after.len() == list.len()
            &&& j != i ==> after[j] == list[j]
            &&& same ==> after == list && count == next
            &&& !same ==> {
                &&& count == next + 1
                &&& after[i].detected == next
                &&& after[i].url == found.url && after[i].label == found.label
                &&& after[i].pane == list[i].pane && after[i].port == found.port
                &&& !after[i].stopping
            }
        }),
{
    lemma_server_from(list, i, 0);
}

/// A web server that nobody knew comes last, under the next number.
pub proof fn lemma_new_server_is_noted(
    list: Seq<DevServer>,
    next: u64,
    pane: PaneId,
    found: FoundServer,
)
    requires
        forall|k: int|
            0 <= k < list.len() ==> !((#[trigger] list[k]).pane == pane && list[k].port
                == found.port),
    ensures
        ({
            let (after, count) = noted(list, next as int, pane, found);
            &&& after.len() == list.len() + 1
            &&& after.drop_last() == list
            &&& count == next + 1
            &&& after.last().pane == pane && after.last().port == found.port
            &&& after.last().url == found.url && after.last().label == found.label
            &&& after.last().detected == next
            &&& !after.last().stopping
        }),
{
    lemma_no_server(list, pane, found.port, 0);
    let (after, count) = noted(list, next as int, pane, found);
    assert(after.drop_last() =~= list);
}

/// With a Pane its web servers go, and no others.
pub proof fn lemma_servers_go_with_their_pane(list: Seq<DevServer>, pane: PaneId, server: DevServer)
    ensures
        list.filter(of_other(pane)).contains(server) <==> list.contains(server) && server.pane
            != pane,
{
    lemma_filter_holds(list, of_other(pane), server);
}

proof fn lemma_live_at(
    list: Seq<CatalogLine>,
    name: Seq<char>,
    live: LiveCounts,
    i: int,
    from: int,
)
    requires
        0 <= from <= i < list.len(),
        list[i].name == name,
        forall|k: int| 0 <= k < i ==> (#[trigger] list[k]).name != name,
    ensures
        with_live(list, name, live, from) == list.update(i, live_line(name, live)),
    decreases i - from,
{
    if from < i {
        assert(list[from].name != name);
        lemma_live_at(list, name, live, i, from + 1);
    }
}

proof fn lemma_live_added(list: Seq<CatalogLine>, name: Seq<char>, live: LiveCounts, from: int)
    requires
        0 <= from,
        forall|k: int| 0 <= k < list.len() ==> (#[trigger] list[k]).name != name,
    ensures
        with_live(list, name, live, from) == list.push(live_line(name, live)),
    decreases list.len() - from,
{
    if from < list.len() {
        assert(list[from].name != name);
        lemma_live_added(list, name, live, from + 1);
    }
}

/// The catalog tells of the running Workspace what is true of it now, in the
/// place of what was kept of it, and leaves the others as they were kept.
pub proof fn lemma_catalog_tells_what_runs(
    list: Seq<CatalogLine>,
    name: Seq<char>,
    live: LiveCounts,
    i: int,
    j: int,
)
    requires
        0 <= i < list.len(),
        0 <= j < list.len(),
        list[i].name == name,
        forall|k: int| 0 <= k < i ==> (#[trigger] list[k]).name != name,
        live.windows <= u32::MAX,
        live.panes <= u32::MAX,
        live.projects <= u32::MAX,
    ensures
        ({
            let after = with_live(list, name, live, 0);
            &&& after.len() == list.len()
            &&& j != i ==> after[j] == list[j]
            &&& after[i].name == name && after[i].running
            &&& after[i].windows == live.windows
            &&& after[i].panes == live.panes
            &&& after[i].projects == live.projects
        }),
{
    lemma_live_at(list, name, live, i, 0);
}

/// A Workspace that was never kept is added to the catalog while it runs.
pub proof fn lemma_catalog_adds_what_runs(list: Seq<CatalogLine>, name: Seq<char>, live: LiveCounts)
    requires
        forall|k: int| 0 <= k < list.len() ==> (#[trigger] list[k]).name != name,
    ensures
        ({
            let after = with_live(list, name, live, 0);
            &&& after.len() == list.len() + 1
            &&& after.drop_last() == list
            &&& after.last().name == name && after.last().running
        }),
{
    lemma_live_added(list, name, live, 0);
    assert(with_live(list, name, live, 0).drop_last() =~= list);
}

/// How often an agent runs is how often it is bound.
pub proof fn lemma_running_agents_are_counted(ids: Seq<Seq<char>>, id: Seq<char>, n: nat)
    requires
        n < ids.len(),
    ensures
        occurrences(ids, id, 0) == 0,
        ids[n as int] == id ==> occurrences(ids, id, n + 1) == occurrences(ids, id, n) + 1,
        ids[n as int] != id ==> occurrences(ids, id, n + 1) == occurrences(ids, id, n),
{
}

/// An entry tells of its provider what was found out about it; an agent that no
/// provider stands for is named by itself and counts as installed.
pub proof fn lemma_entry_tells_of_its_provider(
    providers: Seq<ProviderState>,
    ids: Seq<Seq<char>>,
    i: int,
    e: AgentInfo,
    other: AgentInfo,
)
    requires
        provider_entry(providers, ids, i, e),
        custom_entry(ids, other),
        forall|k: int| 0 <= k < i ==> (#[trigger] providers[k]).id@ != providers[i].id@,
    ensures
        e.id@ == providers[i].id@ && e.name@ == providers[i].name@,
        e.command@ == providers[i].command@,
        e.installed == providers[i].installed && e.connector == providers[i].connector,
        e.running == occurrences(ids, providers[i].id@, ids.len()),
        other.name@ == other.id@ && other.command@ == other.id@,
        other.installed && other.connector is Unsupported,
        other.running == occurrences(ids, other.id@, ids.len()),
{
}

/// The directories that a client may bring: absolute, without a nought in them,
/// no more than two hundred and fifty-six and not too long in all.
pub proof fn lemma_directories_a_client_may_bring(list: Seq<Seq<char>>, i: int)
    ensures
        list.len() == 0 || list.len() > 256 || total_bytes(list) > 65_536 ==> !acceptable(list),
        acceptable(list) && 0 <= i < list.len() ==> list[i].len() > 0 && list[i][0] == '/'
            && !list[i].contains('\0'),
        0 < list.len() <= 256 && total_bytes(list) <= 65_536 && (forall|k: int|
            0 <= k < list.len() ==> (#[trigger] list[k]).len() > 0 && list[k][0] == '/'
                && !list[k].contains('\0')) ==> acceptable(list),
{
    if acceptable(list) && 0 <= i < list.len() {
        assert(searchable(list[i]));
    }
    if forall|k: int|
        0 <= k < list.len() ==> (#[trigger] list[k]).len() > 0 && list[k][0] == '/'
            && !list[k].contains('\0') {
        assert forall|k: int| 0 <= k < list.len() implies searchable(#[trigger] list[k]) by {}
    }
}

proof fn lemma_provider_from(providers: Seq<ProviderRules>, i: int, from: int)
    requires
        0 <= from <= i < providers.len(),
        forall|k: int| 0 <= k < i ==> (#[trigger] providers[k]).id@ != providers[i].id@,
    ensures
        provider_at(providers, providers[i].id@, from) == Some(i),
    decreases i - from,
{
    if from < i {
        assert(providers[from].id@ != providers[i].id@);
        lemma_provider_from(providers, i, from + 1);
    }
}

/// A session is taken up again only with a program of its own provider: another
/// program, and no program at all, are not run.
pub proof fn lemma_session_taken_up_by_its_own_program(
    program: Seq<char>,
    command: Seq<Seq<char>>,
    providers: Seq<ProviderRules>,
    i: int,
)
    requires
        0 <= i < providers.len(),
        forall|k: int| 0 <= k < i ==> (#[trigger] providers[k]).id@ != providers[i].id@,
    ensures
        resume_line(program, providers[i].id@, command, providers) is Some <==> command.len() > 0
            && texts(providers[i].executables@).contains(command[0]),
{
    lemma_provider_from(providers, i, 0);
}

/// A shell comes back where it was if that was an absolute path, and else at the
/// root of its Project.
pub proof fn lemma_shell_comes_back(saved: Option<Seq<char>>, root: Option<Seq<char>>)
    ensures
        saved is Some && saved->0.len() > 0 && saved->0[0] == '/' ==> restored_cwd(saved, root)
            == saved,
        saved is None || saved->0.len() == 0 || saved->0[0] != '/' ==> restored_cwd(saved, root)
            == root,
{
}

/// What is seen of an artifact: one that was superseded, and one whose Project
/// is closed, are left alone; a file that went is missing, once; a file of the
/// same kind and place that came back or changed is taken up afresh.
pub proof fn lemma_what_is_seen_of_an_artifact(
    current: ArtifactRecord,
    open: bool,
    observation: Option<ArtifactObservation>,
    missing: bool,
)
    ensures
        ({
            let change = observed_change(current, open, observation, missing);
            let watched = open && !(current.status is Superseded);
            let same = observation is Some && observation->0.path@ == current.path@
                && observation->0.kind == current.kind;
            &&& !watched ==> change is Nothing
            &&& change is Missing <==> watched && missing && !(current.status is Missing)
            &&& change is Refreshed ==> watched && !missing && same
            &&& watched && !missing && same ==> (change is Refreshed <==> !(
            current.status is Available) || current.digest@ != observation->0.digest@
                || current.size != observation->0.size)
        }),
{
}

/// Taking an artifact off a list takes every mention of it and no other.
pub proof fn lemma_artifact_taken_off(list: Seq<ArtifactId>, id: ArtifactId, other: ArtifactId)
    ensures
        without(list, id).contains(other) <==> list.contains(other) && other != id,
    decreases list.len(),
{
    let out = without(list, id);
    if list.len() > 0 {
        let head = list.drop_last();
        lemma_artifact_taken_off(head, id, other);
        let rest = without(head, id);
        assert(list.contains(other) <==> head.contains(other) || list.last() == other) by {
            if head.contains(other) {
                let k = choose|k: int| 0 <= k < head.len() && head[k] == other;
                assert(list[k] == other);
            }
            if list.last() == other {
                assert(list[list.len() - 1] == other);
            }
            if list.contains(other) {
                let k = choose|k: int| 0 <= k < list.len() && list[k] == other;
                if k < head.len() {
                    assert(head[k] == other);
                }
            }
        }
        if list.last() != id {
            assert(out.contains(other) <==> rest.contains(other) || list.last() == other) by {
                if rest.contains(other) {
                    let k = choose|k: int| 0 <= k < rest.len() && rest[k] == other;
                    assert(out[k] == other);
                }
                if list.last() == other {
                    assert(out[out.len() - 1] == other);
                }
                if out.contains(other) {
                    let k = choose|k: int| 0 <= k < out.len() && out[k] == other;
                    if k < rest.len() {
                        assert(rest[k] == other);
                    }
                }
            }
        }
    }
}

/// A count that fits is told as it is.
pub proof fn lemma_count_is_told(n: int)
    ensures
        0 <= n <= u32::MAX ==> capped32(n) == n,
        n > u32::MAX ==> capped32(n) == u32::MAX,
{
}

/// The catalog is listed by name, each line of it once.
pub proof fn lemma_catalog_is_ordered(
    list: Seq<CatalogLine>,
    sorted: Seq<CatalogLine>,
    i: int,
    j: int,
    line: CatalogLine,
)
    requires
        sorted_by_name(list, sorted),
    ensures
        sorted.len() == list.len(),
        sorted.contains(line) <==> list.contains(line),
        0 <= i < j < sorted.len() ==> !precedes(sorted[j].name, sorted[i].name),
{
    broadcast use vstd::seq_lib::group_to_multiset_ensures;

    assert(sorted.to_multiset().len() == list.to_multiset().len());
    assert(sorted.contains(line) <==> sorted.to_multiset().count(line) > 0);
    assert(list.contains(line) <==> list.to_multiset().count(line) > 0);
}

/// A Tab goes by its place among the Tabs of its Project, counted from one, and
/// a Project by its name.
pub proof fn lemma_tab_is_numbered_in_its_project(s: WorkspaceState, w: int, t: int, p: int)
    requires
        0 <= w < s.windows.len(),
        ({
            let tabs = tabs_of(s.windows, s.windows[w].project);
            &&& 0 <= t < tabs.len()
            &&& tabs[t] == w
            &&& forall|k: int| 0 <= k < t ==> tabs[k] != w
        }),
        t < u32::MAX,
    ensures
        tab_number(s, w) == t + 1,
        project_at(s.projects, s.windows[w].project) == Some(p) ==> project_label(
            s,
            s.windows[w].project,
        ) == s.projects[p].name@,
        project_at(s.projects, s.windows[w].project) is None ==> project_label(
            s,
            s.windows[w].project,
        ) == "Project"@,
{
    crate::agent_laws::lemma_tab_called_by_its_place(
        tabs_of(s.windows, s.windows[w].project),
        w,
        t,
    );
}

} // verus!
