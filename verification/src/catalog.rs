//! Lists that are merged from what the disk holds and what runs here: the
//! catalog of Workspaces, and the agents that can be managed.
use crate::listings::capped32;
use crate::order::{
    ascending, insert_text, lemma_precedes_irreflexive, lemma_precedes_total,
    lemma_precedes_transitive, precedes, text_precedes,
};
use crate::search_path::texts;
use crate::text::same_text;
use vstd::prelude::*;

verus! {

/// A Workspace of the catalog.
#[derive(Debug)]
pub struct CatalogEntry {
    pub name: String,
    pub windows: u32,
    pub panes: u32,
    pub projects: u32,
    pub running: bool,
}

/// What an entry of the catalog says.
pub struct CatalogLine {
    pub name: Seq<char>,
    pub windows: u32,
    pub panes: u32,
    pub projects: u32,
    pub running: bool,
}

/// What an entry of the catalog says.
pub open spec fn catalog_line(e: CatalogEntry) -> CatalogLine {
    CatalogLine {
        name: e.name@,
        windows: e.windows,
        panes: e.panes,
        projects: e.projects,
        running: e.running,
    }
}

/// What a catalog says.
pub open spec fn catalog_lines(list: Seq<CatalogEntry>) -> Seq<CatalogLine> {
    Seq::new(list.len(), |i: int| catalog_line(list[i]))
}

/// What this server holds.
#[derive(Clone, Copy, Debug, PartialEq, Eq, Structural)]
pub struct LiveCounts {
    pub windows: usize,
    pub panes: usize,
    pub projects: usize,
}

/// The line of the Workspace that runs here.
pub open spec fn live_line(name: Seq<char>, live: LiveCounts) -> CatalogLine {
    CatalogLine {
        name,
        windows: capped32(live.windows as int),
        panes: capped32(live.panes as int),
        projects: capped32(live.projects as int),
        running: true,
    }
}

/// The catalog with this Workspace brought up to date, or added: the first entry
/// with its name, from position `i` on.
pub open spec fn with_live(list: Seq<CatalogLine>, name: Seq<char>, live: LiveCounts, i: int) -> Seq<
    CatalogLine,
>
    decreases list.len() - i,
{
    if i < 0 || i >= list.len() {
        list.push(live_line(name, live))
    } else if list[i].name == name {
        list.update(i, live_line(name, live))
    } else {
        with_live(list, name, live, i + 1)
    }
}

/// The catalog is in the order of the names.
pub open spec fn names_ordered(list: Seq<CatalogLine>) -> bool {
    forall|i: int, j: int|
        0 <= i < j < list.len() ==> !precedes((#[trigger] list[j]).name, (#[trigger] list[i]).name)
}

/// An entry goes by this name.
pub open spec fn named(name: Seq<char>) -> spec_fn(CatalogLine) -> bool {
    |line: CatalogLine| line.name == name
}

/// `sorted` is the catalog in the order of the names; entries with the same name
/// stand in the order in which they came.
pub open spec fn sorted_by_name(list: Seq<CatalogLine>, sorted: Seq<CatalogLine>) -> bool {
    &&& names_ordered(sorted)
    &&& sorted.to_multiset() == list.to_multiset()
    &&& forall|name: Seq<char>| #[trigger] sorted.filter(named(name)) == list.filter(named(name))
}

/// An entry that is put before all that come after it in the order, and after
/// all that do not, is the last of its name.
proof fn lemma_last_of_its_name(list: Seq<CatalogLine>, k: int, line: CatalogLine, name: Seq<char>)
    requires
        0 <= k <= list.len(),
        forall|b: int| k <= b < list.len() ==> precedes(line.name, (#[trigger] list[b]).name),
    ensures
        list.insert(k, line).filter(named(name)) == list.push(line).filter(named(name)),
{
    let pred = named(name);
    let head = list.take(k);
    let tail = list.skip(k);
    let one = seq![line];
    assert(list =~= head + tail);
    assert(list.insert(k, line) =~= head + one + tail);
    assert(list.push(line) =~= list + one);
    Seq::filter_distributes_over_add(head + one, tail, pred);
    Seq::filter_distributes_over_add(head, one, pred);
    Seq::filter_distributes_over_add(list, one, pred);
    Seq::filter_distributes_over_add(head, tail, pred);
    if line.name == name {
        lemma_precedes_irreflexive(name);
        assert forall|x: CatalogLine| #[trigger] tail.contains(x) implies !pred(x) by {
            let b = choose|b: int| 0 <= b < tail.len() && tail[b] == x;
            assert(tail[b] == list[k + b]);
        }
        tail.lemma_all_neg_filter_empty(pred);
        assert((head + one).filter(pred) + tail.filter(pred) =~= (head + tail).filter(pred)
            + one.filter(pred));
    } else {
        one.lemma_all_neg_filter_empty(pred);
        assert((head + one).filter(pred) + tail.filter(pred) =~= (head + tail).filter(pred)
            + one.filter(pred));
    }
}

fn cap(n: usize) -> (out: u32)
    ensures
        out == capped32(n as int),
{
    if n > 0xffff_ffff {
        0xffff_ffff
    } else {
        n as u32
    }
}

fn refresh(list: &mut Vec<CatalogEntry>, name: &str, live: LiveCounts)
    ensures
        catalog_lines(final(list)@) == with_live(catalog_lines(old(list)@), name@, live, 0),
{
    let ghost before = catalog_lines(list@);
    let windows: u32 = cap(live.windows);
    let panes: u32 = cap(live.panes);
    let projects: u32 = cap(live.projects);
    let mut i: usize = 0;
    while i < list.len()
        invariant
            i <= list@.len(),
            list@ == old(list)@,
            before == catalog_lines(list@),
            windows == capped32(live.windows as int),
            panes == capped32(live.panes as int),
            projects == capped32(live.projects as int),
            with_live(before, name@, live, 0) == with_live(before, name@, live, i as int),
        decreases list@.len() - i,
    {
        assert(before[i as int].name == list@[i as int].name@);
        if same_text(list[i].name.as_str(), name) {
            list[i].windows = windows;
            list[i].panes = panes;
            list[i].projects = projects;
            list[i].running = true;
            assert(catalog_lines(list@) =~= before.update(i as int, live_line(name@, live)));
            return;
        }
        i += 1;
    }
    list.push(CatalogEntry { name: name.to_owned(), windows, panes, projects, running: true });
    assert(catalog_lines(list@) =~= before.push(live_line(name@, live)));
}

/// Merge the catalog on disk with the Workspace that runs here, in the order of
/// the names.
pub fn merge_catalog(entries: Vec<CatalogEntry>, name: &str, live: LiveCounts) -> (out: Vec<
    CatalogEntry,
>)
    ensures
        sorted_by_name(
            with_live(catalog_lines(entries@), name@, live, 0),
            catalog_lines(out@),
        ),
{
    let mut rest = entries;
    refresh(&mut rest, name, live);
    let ghost all = catalog_lines(rest@);
    let mut out: Vec<CatalogEntry> = Vec::new();
    let ghost mut i: nat = 0;
    proof {
        assert(catalog_lines(out@) =~= all.take(0));
        assert(catalog_lines(rest@) =~= all.skip(0));
    }
    while rest.len() > 0
        invariant
            i <= all.len(),
            catalog_lines(rest@) == all.skip(i as int),
            sorted_by_name(all.take(i as int), catalog_lines(out@)),
        decreases rest@.len(),
    {
        let ghost waiting = rest@;
        let one = rest.remove(0);
        let ghost line = catalog_line(one);
        proof {
            assert(catalog_lines(waiting).len() == waiting.len());
            assert(all.skip(i as int).len() == waiting.len());
            assert(catalog_lines(waiting)[0] == line);
            assert(all.skip(i as int)[0] == all[i as int]);
            assert(line == all[i as int]);
            assert(catalog_lines(rest@) =~= catalog_lines(waiting).skip(1));
            assert(all.skip(i as int).skip(1) =~= all.skip(i as int + 1));
        }
        let ghost before = catalog_lines(out@);
        let mut k: usize = 0;
        while k < out.len() && !text_precedes(one.name.as_str(), out[k].name.as_str())
            invariant
                k <= out@.len(),
                before == catalog_lines(out@),
                line == catalog_line(one),
                forall|a: int| 0 <= a < k ==> !precedes(line.name, (#[trigger] before[a]).name),
            decreases out@.len() - k,
        {
            assert(before[k as int].name == out@[k as int].name@);
            k += 1;
        }
        if k < out.len() {
            assert(before[k as int].name == out@[k as int].name@);
        }
        out.insert(k, one);
        proof {
            broadcast use vstd::seq_lib::group_to_multiset_ensures;

            let after = catalog_lines(out@);
            assert(after =~= before.insert(k as int, line));
            assert(all.take(i as int + 1) =~= all.take(i as int).push(line));
            assert(after.to_multiset() =~= before.to_multiset().insert(line));
            assert forall|b: int| k <= b < before.len() implies precedes(
                line.name,
                (#[trigger] before[b]).name,
            ) by {
                if b > k {
                    let (low, at) = (before[k as int].name, before[b].name);
                    assert(!precedes(at, low));
                    lemma_precedes_total(low, at);
                    if precedes(low, at) {
                        lemma_precedes_transitive(line.name, low, at);
                    }
                }
            }
            assert forall|name: Seq<char>| #[trigger] after.filter(named(name)) == all.take(
                i as int + 1,
            ).filter(named(name)) by {
                lemma_last_of_its_name(before, k as int, line, name);
                before.lemma_filter_push(line, named(name));
                all.take(i as int).lemma_filter_push(line, named(name));
                assert(before.filter(named(name)) == all.take(i as int).filter(named(name)));
            }
            assert forall|a: int, b: int| 0 <= a < b < after.len() implies !precedes(
                (#[trigger] after[b]).name,
                (#[trigger] after[a]).name,
            ) by {
                if a < k && b == k {
                    assert(after[a] == before[a]);
                } else if a == k {
                    assert(after[b] == before[b - 1]);
                    if precedes(before[b - 1].name, line.name) {
                        if b - 1 > k {
                            lemma_precedes_transitive(
                                before[b - 1].name,
                                line.name,
                                before[k as int].name,
                            );
                        } else {
                            lemma_precedes_transitive(
                                before[k as int].name,
                                line.name,
                                before[k as int].name,
                            );
                            lemma_precedes_irreflexive(before[k as int].name);
                        }
                    }
                } else {
                    let x = if a < k {
                        a
                    } else {
                        a - 1
                    };
                    let y = if b < k {
                        b
                    } else {
                        b - 1
                    };
                    assert(after[a] == before[x] && after[b] == before[y]);
                }
            }
            i = i + 1;
        }
    }
    assert(all.take(i as int) =~= all);
    out
}

/// Whether an agent's notifications are wired up.
#[derive(Clone, Copy, Debug, PartialEq, Eq, Structural)]
pub enum ConnectorStatus {
    Unsupported,
    Missing,
    Installed,
}

/// What the disk says of a provider, with the name and command it goes by.
#[derive(Debug)]
pub struct ProviderState {
    pub id: String,
    pub name: String,
    pub command: String,
    pub installed: bool,
    pub connector: ConnectorStatus,
}

/// One agent that can be managed.
#[derive(Debug)]
pub struct AgentInfo {
    pub id: String,
    pub name: String,
    pub command: String,
    pub installed: bool,
    pub connector: ConnectorStatus,
    pub running: u32,
}

/// How often a text occurs among the first `n`.
pub open spec fn occurrences(ids: Seq<Seq<char>>, id: Seq<char>, n: nat) -> nat
    decreases n,
{
    if n == 0 {
        0
    } else {
        occurrences(ids, id, (n - 1) as nat) + if ids[n - 1] == id {
            1nat
        } else {
            0nat
        }
    }
}

fn count_id(ids: &Vec<String>, id: &str) -> (n: u32)
    requires
        ids@.len() <= u32::MAX,
    ensures
        n == occurrences(texts(ids@), id@, ids@.len()),
{
    let mut n: u32 = 0;
    let mut i: usize = 0;
    while i < ids.len()
        invariant
            i <= ids@.len(),
            ids@.len() <= u32::MAX,
            n == occurrences(texts(ids@), id@, i as nat),
            n <= i,
        decreases ids@.len() - i,
    {
        assert(texts(ids@)[i as int] == ids@[i as int]@);
        if same_text(ids[i].as_str(), id) {
            n += 1;
        }
        i += 1;
    }
    n
}

/// The provider's id stands among the first `n`.
pub open spec fn listed(providers: Seq<ProviderState>, id: Seq<char>, n: int) -> bool {
    exists|i: int| 0 <= i < n && (#[trigger] providers[i]).id@ == id
}

fn is_listed(providers: &Vec<ProviderState>, id: &str, n: usize) -> (found: bool)
    requires
        n <= providers@.len(),
    ensures
        found == listed(providers@, id@, n as int),
{
    let mut i: usize = 0;
    while i < n
        invariant
            i <= n <= providers@.len(),
            forall|k: int| 0 <= k < i ==> (#[trigger] providers@[k]).id@ != id@,
        decreases n - i,
    {
        if same_text(providers[i].id.as_str(), id) {
            assert(providers@[i as int].id@ == id@);
            return true;
        }
        i += 1;
    }
    false
}

/// The entry of a provider. Panes are counted once, for the first entry of an
/// id.
pub open spec fn provider_entry(
    providers: Seq<ProviderState>,
    ids: Seq<Seq<char>>,
    i: int,
    e: AgentInfo,
) -> bool {
    let p = providers[i];
    &&& e.id@ == p.id@
    &&& e.name@ == p.name@
    &&& e.command@ == p.command@
    &&& e.installed == p.installed
    &&& e.connector == p.connector
    &&& e.running == if listed(providers, p.id@, i) {
        0
    } else {
        occurrences(ids, p.id@, ids.len())
    }
}

/// The entry of an agent that no provider stands for: that it runs shows that it
/// is installed.
pub open spec fn custom_entry(ids: Seq<Seq<char>>, e: AgentInfo) -> bool {
    &&& e.name@ == e.id@
    &&& e.command@ == e.id@
    &&& e.installed
    &&& e.connector == ConnectorStatus::Unsupported
    &&& e.running == occurrences(ids, e.id@, ids.len())
}

/// The ids of a list of agents.
pub open spec fn agent_ids(list: Seq<AgentInfo>) -> Seq<Seq<char>> {
    Seq::new(list.len(), |i: int| list[i].id@)
}

fn unlisted_ids(providers: &Vec<ProviderState>, bound: &Vec<String>) -> (ids: Vec<String>)
    ensures
        ascending(texts(ids@)),
        forall|t: Seq<char>| #[trigger]
            texts(ids@).contains(t) <==> texts(bound@).contains(t) && !listed(
                providers@,
                t,
                providers@.len() as int,
            ),
{
    let mut ids: Vec<String> = Vec::new();
    let mut i: usize = 0;
    while i < bound.len()
        invariant
            i <= bound@.len(),
            ascending(texts(ids@)),
            forall|t: Seq<char>| #[trigger]
                texts(ids@).contains(t) <==> texts(bound@).take(i as int).contains(t) && !listed(
                    providers@,
                    t,
                    providers@.len() as int,
                ),
        decreases bound@.len() - i,
    {
        let ghost held = texts(ids@);
        let ghost id = bound@[i as int]@;
        let known = is_listed(providers, bound[i].as_str(), providers.len());
        if !known {
            insert_text(&mut ids, bound[i].clone());
        }
        proof {
            let all = texts(bound@);
            let more = all.take(i + 1);
            assert(all[i as int] == id);
            assert forall|t: Seq<char>| #[trigger]
                texts(ids@).contains(t) <==> all.take(i + 1).contains(t) && !listed(
                    providers@,
                    t,
                    providers@.len() as int,
                ) by {
                assert(held.contains(t) <==> all.take(i as int).contains(t) && !listed(
                    providers@,
                    t,
                    providers@.len() as int,
                ));
                if all.take(i as int).contains(t) {
                    let k = choose|k: int| 0 <= k < i && all.take(i as int)[k] == t;
                    assert(more[k] == t);
                }
                if more.contains(t) {
                    let k = choose|k: int| 0 <= k < more.len() && more[k] == t;
                    if k < i {
                        assert(all.take(i as int)[k] == t);
                    }
                }
                assert(more[i as int] == id);
            }
        }
        i += 1;
    }
    assert(texts(bound@).take(i as int) =~= texts(bound@));
    ids
}

/// Merge what the disk says of the providers with the agents that run here:
/// every provider first, then each other agent that is bound in a Pane, in the
/// order of the ids. `bound` holds the id of each Pane's agent.
pub fn merge_agents_snapshot(providers: Vec<ProviderState>, bound: &Vec<String>) -> (out: Vec<
    AgentInfo,
>)
    requires
        bound@.len() <= u32::MAX,
    ensures
        out@.len() >= providers@.len(),
        forall|i: int|
            0 <= i < providers@.len() ==> provider_entry(
                providers@,
                texts(bound@),
                i,
                #[trigger] out@[i],
            ),
        forall|i: int|
            providers@.len() <= i < out@.len() ==> custom_entry(
                texts(bound@),
                #[trigger] out@[i],
            ),
        ({
            let custom = agent_ids(out@).skip(providers@.len() as int);
            &&& ascending(custom)
            &&& forall|t: Seq<char>| #[trigger]
                custom.contains(t) <==> texts(bound@).contains(t) && !listed(
                    providers@,
                    t,
                    providers@.len() as int,
                )
        }),
{
    let ids = unlisted_ids(&providers, bound);
    let mut out: Vec<AgentInfo> = Vec::new();
    let mut i: usize = 0;
    while i < providers.len()
        invariant
            i <= providers@.len(),
            bound@.len() <= u32::MAX,
            out@.len() == i,
            forall|k: int|
                0 <= k < i ==> provider_entry(providers@, texts(bound@), k, #[trigger] out@[k]),
        decreases providers@.len() - i,
    {
        let p = &providers[i];
        let again = is_listed(&providers, p.id.as_str(), i);
        let running: u32 = if again {
            0
        } else {
            count_id(bound, p.id.as_str())
        };
        out.push(
            AgentInfo {
                id: p.id.clone(),
                name: p.name.clone(),
                command: p.command.clone(),
                installed: p.installed,
                connector: p.connector,
                running,
            },
        );
        i += 1;
    }
    let base: usize = providers.len();
    let mut k: usize = 0;
    assert(agent_ids(out@).skip(base as int) =~= texts(ids@).take(0));
    while k < ids.len()
        invariant
            k <= ids@.len(),
            bound@.len() <= u32::MAX,
            base == providers@.len(),
            out@.len() == base + k,
            agent_ids(out@).skip(base as int) == texts(ids@).take(k as int),
            forall|j: int|
                0 <= j < base ==> provider_entry(providers@, texts(bound@), j, #[trigger] out@[j]),
            forall|j: int|
                base <= j < out@.len() ==> custom_entry(texts(bound@), #[trigger] out@[j]),
        decreases ids@.len() - k,
    {
        let ghost before = out@;
        let running: u32 = count_id(bound, ids[k].as_str());
        out.push(
            AgentInfo {
                id: ids[k].clone(),
                name: ids[k].clone(),
                command: ids[k].clone(),
                installed: true,
                connector: ConnectorStatus::Unsupported,
                running,
            },
        );
        proof {
            let was = agent_ids(before).skip(base as int);
            let now = agent_ids(out@).skip(base as int);
            assert(now =~= was.push(ids@[k as int]@));
            assert(texts(ids@).take(k + 1) =~= texts(ids@).take(k as int).push(ids@[k as int]@));
        }
        k += 1;
    }
    assert(texts(ids@).take(k as int) =~= texts(ids@));
    out
}

} // verus!
