//! Listings of the Workspace: Projects, Panes, and where a Pane can go.
use crate::hierarchy::{tabs_of, Workspace, WorkspaceState};
use crate::order::insert_text;
use crate::text::{chars_of, push_decimal, push_text, string_of, trim};
use crate::types::{PaneId, ProjectId};
use vstd::prelude::*;

verus! {

/// A count that fits thirty-two bits, or the largest that does.
pub open spec fn capped32(n: int) -> u32 {
    if n > u32::MAX {
        u32::MAX
    } else {
        n as u32
    }
}

pub(crate) fn ordinal(index: usize) -> (n: u32)
    ensures
        n == capped32(index + 1),
{
    if index >= 0xffff_ffff {
        0xffff_ffff
    } else {
        index as u32 + 1
    }
}

/// The name that a Tab goes by.
pub open spec fn tab_label(name: Option<String>, tab: u32) -> Seq<char> {
    match name {
        Some(text) => text@,
        None => "Tab "@ + crate::text::decimal(tab as nat),
    }
}

pub(crate) fn label_tab(name: &Option<String>, tab: u32) -> (label: String)
    ensures
        label@ == tab_label(*name, tab),
{
    match name {
        Some(text) => text.clone(),
        None => {
            let mut label = "Tab ".to_owned();
            push_decimal(&mut label, tab as u64);
            label
        },
    }
}

/// One Pane of a listing.
#[derive(Debug)]
pub struct PaneInfo {
    pub id: PaneId,
    pub project: ProjectId,
    pub project_name: String,
    pub tab: u32,
    pub tab_name: String,
    pub pane: u32,
    pub active: bool,
}

/// What a listing says of one Pane.
pub struct PaneLine {
    pub id: PaneId,
    pub project: ProjectId,
    pub project_name: Seq<char>,
    pub tab: u32,
    pub tab_name: Seq<char>,
    pub pane: u32,
    pub active: bool,
}

/// What an entry says.
pub open spec fn pane_line(info: PaneInfo) -> PaneLine {
    PaneLine {
        id: info.id,
        project: info.project,
        project_name: info.project_name@,
        tab: info.tab,
        tab_name: info.tab_name@,
        pane: info.pane,
        active: info.active,
    }
}

/// What a listing says.
pub open spec fn pane_lines(list: Seq<PaneInfo>) -> Seq<PaneLine> {
    Seq::new(list.len(), |i: int| pane_line(list[i]))
}

impl WorkspaceState {
    /// The Tab at a position of a Project's Tab bar.
    pub open spec fn tab_at(self, p: int, t: int) -> int {
        tabs_of(self.windows, self.projects[p].id)[t] as int
    }

    /// The line of the Pane at position `k` of a Tab.
    pub open spec fn line_at(self, p: int, t: int, k: int) -> PaneLine {
        let w = self.tab_at(p, t);
        let win = self.windows[w];
        let pane = win.layout.panes()[k];
        PaneLine {
            id: pane,
            project: self.projects[p].id,
            project_name: self.projects[p].name@,
            tab: capped32(t + 1),
            tab_name: tab_label(win.name, capped32(t + 1)),
            pane: capped32(k + 1),
            active: self.active_window == w && win.active == pane,
        }
    }

    /// The lines of the first `n` Panes of a Tab.
    pub open spec fn tab_lines(self, p: int, t: int, n: nat) -> Seq<PaneLine> {
        Seq::new(n, |k: int| self.line_at(p, t, k))
    }

    /// The lines of the first `n` Tabs of a Project.
    pub open spec fn project_lines(self, p: int, n: nat) -> Seq<PaneLine>
        decreases n,
    {
        if n == 0 {
            Seq::empty()
        } else {
            self.project_lines(p, (n - 1) as nat) + self.tab_lines(
                p,
                n - 1,
                self.windows[self.tab_at(p, n - 1)].layout.panes().len(),
            )
        }
    }

    /// The lines of the first `n` Projects.
    pub open spec fn all_lines(self, n: nat) -> Seq<PaneLine>
        decreases n,
    {
        if n == 0 {
            Seq::empty()
        } else {
            self.all_lines((n - 1) as nat) + self.project_lines(
                n - 1,
                tabs_of(self.windows, self.projects[n - 1].id).len(),
            )
        }
    }
}

impl Workspace {
    fn list_tab(&self, p: usize, t: usize, w: usize, out: &mut Vec<PaneInfo>)
        requires
            p < self@.projects.len(),
            w < self@.windows.len(),
            w == self@.tab_at(p as int, t as int),
            t < tabs_of(self@.windows, self@.projects[p as int].id).len(),
        ensures
            pane_lines(final(out)@) == pane_lines(old(out)@) + self@.tab_lines(
                p as int,
                t as int,
                self@.windows[w as int].layout.panes().len(),
            ),
    {
        let ghost head = pane_lines(out@);
        let tab: u32 = ordinal(t);
        let panes = self.windows[w].layout.pane_ids();
        let mut k: usize = 0;
        assert(pane_lines(out@) =~= head + self@.tab_lines(p as int, t as int, 0));
        while k < panes.len()
            invariant
                k <= panes@.len(),
                panes@ == self@.windows[w as int].layout.panes(),
                p < self@.projects.len(),
                w < self@.windows.len(),
                w == self@.tab_at(p as int, t as int),
                tab == capped32(t + 1),
                pane_lines(out@) == head + self@.tab_lines(p as int, t as int, k as nat),
            decreases panes@.len() - k,
        {
            let info = PaneInfo {
                id: panes[k],
                project: self.projects[p].id,
                project_name: self.projects[p].name.clone(),
                tab,
                tab_name: label_tab(&self.windows[w].name, tab),
                pane: ordinal(k),
                active: self.active_window == w && self.windows[w].active == panes[k],
            };
            let ghost before = out@;
            let ghost line = pane_line(info);
            out.push(info);
            assert(line == self@.line_at(p as int, t as int, k as int));
            assert(pane_lines(out@) =~= pane_lines(before).push(line));
            k += 1;
            assert(pane_lines(out@) =~= head + self@.tab_lines(p as int, t as int, k as nat));
        }
    }

    /// List every Pane, by Project, Tab and place.
    pub fn pane_snapshot(&self) -> (out: Vec<PaneInfo>)
        ensures
            pane_lines(out@) == self@.all_lines(self@.projects.len()),
    {
        let mut out: Vec<PaneInfo> = Vec::new();
        let mut p: usize = 0;
        assert(pane_lines(out@) =~= self@.all_lines(0));
        while p < self.projects.len()
            invariant
                p <= self@.projects.len(),
                pane_lines(out@) == self@.all_lines(p as nat),
            decreases self@.projects.len() - p,
        {
            assert(self.windows.len() <= usize::MAX);
            proof {
                crate::tabs::lemma_tabs_among(
                    self@.windows,
                    self@.projects[p as int].id,
                    self@.windows.len(),
                );
            }
            let tabs = self.project_window_indices(self.projects[p].id);
            let ghost head = pane_lines(out@);
            let mut t: usize = 0;
            assert(pane_lines(out@) =~= head + self@.project_lines(p as int, 0));
            while t < tabs.len()
                invariant
                    p < self@.projects.len(),
                    t <= tabs@.len(),
                    tabs@ == tabs_of(self@.windows, self@.projects[p as int].id),
                    forall|i: int|
                        0 <= i < tabs@.len() ==> 0 <= #[trigger] tabs@[i] < self@.windows.len(),
                    pane_lines(out@) == head + self@.project_lines(p as int, t as nat),
                decreases tabs@.len() - t,
            {
                assert(0 <= tabs@[t as int] < self@.windows.len());
                self.list_tab(p, t, tabs[t], &mut out);
                t += 1;
                assert(pane_lines(out@) =~= head + self@.project_lines(p as int, t as nat));
            }
            p += 1;
            assert(pane_lines(out@) =~= self@.all_lines(p as nat));
        }
        out
    }
}

/// Where a Pane can be moved.
#[derive(Clone, Copy, Debug, PartialEq, Eq, Structural)]
pub enum MoveTarget {
    Tab(usize),
    NewTab,
}

/// An entry of a Pane's menu.
#[derive(Debug)]
pub struct MoveItem {
    pub label: String,
    pub target: MoveTarget,
}

/// What an entry says, and where it goes.
pub open spec fn move_line(item: MoveItem) -> (Seq<char>, MoveTarget) {
    (item.label@, item.target)
}

/// What a menu says.
pub open spec fn move_lines(list: Seq<MoveItem>) -> Seq<(Seq<char>, MoveTarget)> {
    Seq::new(list.len(), |i: int| move_line(list[i]))
}

/// The entry for the Tab at a position of the Tab bar.
pub open spec fn move_label(name: Option<String>, number: int) -> Seq<char> {
    let head = "Move to tab "@ + crate::text::decimal(number as nat);
    match name {
        Some(text) => head + ": "@ + text@,
        None => head,
    }
}

impl WorkspaceState {
    /// The entries for the first `n` Tabs of the Tab bar, without the Pane's
    /// own.
    pub open spec fn moves_to(self, tabs: Seq<usize>, source: int, n: nat) -> Seq<
        (Seq<char>, MoveTarget),
    >
        decreases n,
    {
        if n == 0 {
            Seq::empty()
        } else {
            let rest = self.moves_to(tabs, source, (n - 1) as nat);
            let w = tabs[n - 1];
            if w == source {
                rest
            } else {
                rest.push((move_label(self.windows[w as int].name, n as int), MoveTarget::Tab(w)))
            }
        }
    }

    /// The entries for a Pane: every other Tab of its Project, and a new Tab
    /// unless it is alone in its own.
    pub open spec fn destinations(self, pane: PaneId) -> Seq<(Seq<char>, MoveTarget)> {
        match crate::hierarchy::window_of(self.windows, pane) {
            Some(w) => {
                let tabs = tabs_of(self.windows, self.windows[w].project);
                let others = self.moves_to(tabs, w, tabs.len());
                if self.windows[w].layout.panes().len() > 1 {
                    others.push(("Move to new tab"@, MoveTarget::NewTab))
                } else {
                    others
                }
            },
            None => Seq::empty(),
        }
    }
}

impl Workspace {
    /// The entries of a Pane's menu that move it.
    pub fn pane_move_destinations(&self, pane: PaneId) -> (items: Vec<MoveItem>)
        ensures
            move_lines(items@) == self@.destinations(pane),
    {
        let mut items: Vec<MoveItem> = Vec::new();
        assert(move_lines(items@) =~= Seq::empty());
        match self.window_of(pane) {
            None => items,
            Some(source) => {
                assert(self.windows.len() <= usize::MAX);
                proof {
                    crate::tabs::lemma_window_of_found(self@.windows, pane);
                    crate::tabs::lemma_tabs_among(
                        self@.windows,
                        self@.windows[source as int].project,
                        self@.windows.len(),
                    );
                }
                let tabs = self.project_window_indices(self.windows[source].project);
                let mut t: usize = 0;
                while t < tabs.len()
                    invariant
                        t <= tabs@.len(),
                        forall|i: int|
                            0 <= i < tabs@.len() ==> 0 <= #[trigger] tabs@[i] < self@.windows.len(),
                        move_lines(items@) == self@.moves_to(tabs@, source as int, t as nat),
                    decreases tabs@.len() - t,
                {
                    let w: usize = tabs[t];
                    assert(0 <= tabs@[t as int] < self@.windows.len());
                    if w != source {
                        let mut label = "Move to tab ".to_owned();
                        assert(t < tabs.len());
                        push_decimal(&mut label, t as u64 + 1);
                        match &self.windows[w].name {
                            Some(name) => {
                                push_text(&mut label, ": ");
                                push_text(&mut label, name.as_str());
                            },
                            None => {},
                        }
                        let item = MoveItem { label, target: MoveTarget::Tab(w) };
                        let ghost before = items@;
                        let ghost line = move_line(item);
                        items.push(item);
                        assert(line == (
                            move_label(self@.windows[w as int].name, t + 1),
                            MoveTarget::Tab(w),
                        ));
                        assert(move_lines(items@) =~= move_lines(before).push(line));
                    }
                    t += 1;
                }
                if self.windows[source].layout.pane_ids().len() > 1 {
                    let item = MoveItem {
                        label: "Move to new tab".to_owned(),
                        target: MoveTarget::NewTab,
                    };
                    let ghost before = items@;
                    let ghost line = move_line(item);
                    items.push(item);
                    assert(move_lines(items@) =~= move_lines(before).push(line));
                }
                items
            },
        }
    }
}

/// The Panes, of a list, that belong to another.
pub open spec fn among(list: Seq<PaneId>, n: nat, chosen: Seq<PaneId>) -> Seq<PaneId>
    decreases n,
{
    if n == 0 {
        Seq::empty()
    } else {
        let rest = among(list, (n - 1) as nat, chosen);
        if chosen.contains(list[n - 1]) {
            rest.push(list[n - 1])
        } else {
            rest
        }
    }
}

pub(crate) fn keep_among(list: &Vec<PaneId>, chosen: &Vec<PaneId>) -> (kept: Vec<PaneId>)
    ensures
        kept@ == among(list@, list@.len(), chosen@),
{
    let mut kept: Vec<PaneId> = Vec::new();
    let mut i: usize = 0;
    while i < list.len()
        invariant
            i <= list@.len(),
            kept@ == among(list@, i as nat, chosen@),
        decreases list@.len() - i,
    {
        let mut j: usize = 0;
        let mut found = false;
        while j < chosen.len() && !found
            invariant
                i < list@.len(),
                j <= chosen@.len(),
                found ==> chosen@.contains(list@[i as int]),
                !found ==> forall|k: int| 0 <= k < j ==> chosen@[k] != list@[i as int],
            decreases chosen@.len() - j,
        {
            if chosen[j] == list[i] {
                assert(chosen@.contains(chosen@[j as int]));
                found = true;
            }
            j += 1;
        }
        if found {
            kept.push(list[i]);
        }
        i += 1;
    }
    kept
}

/// The Panes of the first `n` Tabs of a Project, in order.
pub open spec fn project_panes(
    windows: Seq<crate::hierarchy::Win>,
    project: ProjectId,
    n: nat,
) -> Seq<PaneId>
    decreases n,
{
    if n == 0 {
        Seq::empty()
    } else {
        let rest = project_panes(windows, project, (n - 1) as nat);
        if windows[n - 1].project == project {
            rest + windows[n - 1].layout.panes()
        } else {
            rest
        }
    }
}

/// Whose agents are stopped.
#[derive(Clone, Copy, Debug, PartialEq, Eq, Structural)]
pub enum StopScope {
    Workspace,
    Project(ProjectId),
    /// A Tab of the active Project, by its place.
    Tab(u32),
}

impl WorkspaceState {
    /// The Panes of a scope; `all` are those of the Workspace.
    pub open spec fn scope_panes(self, scope: StopScope, all: Seq<PaneId>) -> Seq<PaneId> {
        match scope {
            StopScope::Workspace => all,
            StopScope::Project(project) => project_panes(
                self.windows,
                project,
                self.windows.len(),
            ),
            StopScope::Tab(tab) => {
                let tabs = tabs_of(self.windows, self.active_project);
                if tab < tabs.len() {
                    self.windows[tabs[tab as int] as int].layout.panes()
                } else {
                    Seq::empty()
                }
            },
        }
    }
}

impl Workspace {
    /// The Panes of a Project, by Tab and place.
    pub fn panes_of_project(&self, project: ProjectId) -> (panes: Vec<PaneId>)
        ensures
            panes@ == project_panes(self@.windows, project, self@.windows.len()),
    {
        let mut panes: Vec<PaneId> = Vec::new();
        let mut i: usize = 0;
        while i < self.windows.len()
            invariant
                i <= self@.windows.len(),
                panes@ == project_panes(self@.windows, project, i as nat),
            decreases self@.windows.len() - i,
        {
            if self.windows[i].project == project {
                let mut more = self.windows[i].layout.pane_ids();
                panes.append(&mut more);
            }
            i += 1;
        }
        panes
    }

    /// The Panes to close so that the agents of a scope stop: those of the
    /// scope that an agent is bound to.
    pub fn panes_to_stop(&self, scope: StopScope, all: &Vec<PaneId>, bound: &Vec<PaneId>) -> (panes:
        Vec<PaneId>)
        ensures
            ({
                let scoped = self@.scope_panes(scope, all@);
                panes@ == among(scoped, scoped.len(), bound@)
            }),
    {
        match scope {
            StopScope::Workspace => keep_among(all, bound),
            StopScope::Project(project) => keep_among(&self.panes_of_project(project), bound),
            StopScope::Tab(tab) => {
                assert(self.windows.len() <= usize::MAX);
                proof {
                    crate::tabs::lemma_tabs_among(
                        self@.windows,
                        self@.active_project,
                        self@.windows.len(),
                    );
                }
                let tabs = self.project_window_indices(self.active_project);
                let t: usize = tab as usize;
                if t < tabs.len() {
                    keep_among(&self.windows[tabs[t]].layout.pane_ids(), bound)
                } else {
                    Vec::new()
                }
            },
        }
    }
}

/// One Project of a listing.
#[derive(Debug)]
pub struct ProjectInfo {
    pub id: ProjectId,
    pub name: String,
    pub root: String,
    pub tabs: usize,
    pub panes: usize,
    pub active: bool,
    /// How many of its agents wait for a human.
    pub attention: usize,
}

impl Workspace {
    /// List the Projects. `needy` are the Panes whose agent waits for a human.
    pub fn workspace_snapshot(&self, needy: &Vec<PaneId>) -> (list: Vec<ProjectInfo>)
        ensures
            list@.len() == self@.projects.len(),
            forall|i: int|
                0 <= i < list@.len() ==> {
                    let project = self@.projects[i];
                    let panes = project_panes(self@.windows, project.id, self@.windows.len());
                    #[trigger] list@[i] == (ProjectInfo {
                        id: project.id,
                        name: project.name,
                        root: project.root,
                        tabs: tabs_of(self@.windows, project.id).len() as usize,
                        panes: panes.len() as usize,
                        active: project.id == self@.active_project,
                        attention: among(panes, panes.len(), needy@).len() as usize,
                    })
                },
    {
        let mut list: Vec<ProjectInfo> = Vec::new();
        let mut i: usize = 0;
        while i < self.projects.len()
            invariant
                i <= self@.projects.len(),
                list@.len() == i,
                forall|k: int|
                    0 <= k < i ==> {
                        let project = self@.projects[k];
                        let panes = project_panes(self@.windows, project.id, self@.windows.len());
                        #[trigger] list@[k] == (ProjectInfo {
                            id: project.id,
                            name: project.name,
                            root: project.root,
                            tabs: tabs_of(self@.windows, project.id).len() as usize,
                            panes: panes.len() as usize,
                            active: project.id == self@.active_project,
                            attention: among(panes, panes.len(), needy@).len() as usize,
                        })
                    },
            decreases self@.projects.len() - i,
        {
            let id = self.projects[i].id;
            let panes = self.panes_of_project(id);
            list.push(
                ProjectInfo {
                    id,
                    name: self.projects[i].name.clone(),
                    root: self.projects[i].root.clone(),
                    tabs: self.project_window_indices(id).len(),
                    panes: panes.len(),
                    active: id == self.active_project,
                    attention: keep_among(&panes, needy).len(),
                },
            );
            i += 1;
        }
        list
    }
}

/// The name of the Project that a task's title is tagged with.
pub open spec fn tagged(title: Seq<char>) -> Option<Seq<char>> {
    let prefix = "# project "@;
    if title.len() >= prefix.len() && title.take(prefix.len() as int) == prefix {
        let rest = title.skip(prefix.len() as int);
        match colon_at(rest, 0) {
            Some(i) => {
                let name = crate::text::trimmed(rest.take(i));
                if name.len() == 0 {
                    None
                } else {
                    Some(name)
                }
            },
            None => None,
        }
    } else {
        None
    }
}

/// The first colon from position `i` on.
pub open spec fn colon_at(text: Seq<char>, i: int) -> Option<int>
    decreases text.len() - i,
{
    if i < 0 || i >= text.len() {
        None
    } else if text[i] == ':' {
        Some(i)
    } else {
        colon_at(text, i + 1)
    }
}

fn tag_of(title: &str) -> (name: Option<String>)
    ensures
        match tagged(title@) {
            Some(text) => name matches Some(n) && n@ == text,
            None => name is None,
        },
{
    let prefix = chars_of("# project ");
    let chars = chars_of(title);
    if chars.len() < prefix.len() {
        return None;
    }
    let mut i: usize = 0;
    while i < prefix.len()
        invariant
            prefix@ == "# project "@,
            chars@ == title@,
            prefix@.len() <= chars@.len(),
            i <= prefix@.len(),
            forall|k: int| 0 <= k < i ==> chars@[k] == prefix@[k],
        decreases prefix@.len() - i,
    {
        if chars[i] != prefix[i] {
            assert(title@.take(prefix@.len() as int)[i as int] != prefix@[i as int]);
            return None;
        }
        i += 1;
    }
    assert(title@.take(prefix@.len() as int) =~= prefix@);
    let ghost rest = title@.skip(prefix@.len() as int);
    let from: usize = prefix.len();
    let mut at: usize = from;
    while at < chars.len() && chars[at] != ':'
        invariant
            chars@ == title@,
            from == prefix@.len(),
            rest == title@.skip(from as int),
            from <= at <= chars@.len(),
            colon_at(rest, 0) == colon_at(rest, at - from),
        decreases chars@.len() - at,
    {
        assert(rest[at - from] == chars@[at as int]);
        at += 1;
    }
    if at == chars.len() {
        return None;
    }
    assert(rest[at - from] == ':');
    let head = vstd::slice::slice_subrange(chars.as_slice(), from, at);
    assert(head@ =~= rest.take(at - from));
    let name = trim(string_of(head).as_str());
    if name.as_str().is_empty() {
        assert(name@.len() == 0);
        None
    } else {
        Some(name)
    }
}

/// Some title of the first `n` is tagged with this name.
pub open spec fn some_tagged(titles: Seq<String>, n: int, name: Seq<char>) -> bool {
    exists|i: int| 0 <= i < n && tagged((#[trigger] titles[i])@) == Some(name)
}

/// The names of the Projects that tasks are tagged with, in order, each once.
pub fn project_names(titles: &Vec<String>) -> (names: Vec<String>)
    ensures
        crate::order::ascending(crate::search_path::texts(names@)),
        forall|t: Seq<char>| #[trigger]
            crate::search_path::texts(names@).contains(t) <==> some_tagged(
                titles@,
                titles@.len() as int,
                t,
            ),
{
    let mut names: Vec<String> = Vec::new();
    let mut i: usize = 0;
    while i < titles.len()
        invariant
            i <= titles@.len(),
            crate::order::ascending(crate::search_path::texts(names@)),
            forall|t: Seq<char>| #[trigger]
                crate::search_path::texts(names@).contains(t) <==> some_tagged(
                    titles@,
                    i as int,
                    t,
                ),
        decreases titles@.len() - i,
    {
        let ghost before = crate::search_path::texts(names@);
        match tag_of(titles[i].as_str()) {
            Some(name) => {
                let ghost said = name@;
                insert_text(&mut names, name);
                assert forall|t: Seq<char>| #[trigger]
                    crate::search_path::texts(names@).contains(t) <==> some_tagged(
                        titles@,
                        i + 1,
                        t,
                    ) by {
                    if some_tagged(titles@, i + 1, t) && !some_tagged(titles@, i as int, t) {
                        assert(tagged(titles@[i as int]@) == Some(t));
                    }
                    if t == said {
                        assert(tagged(titles@[i as int]@) == Some(t));
                    }
                    assert(before.contains(t) <==> some_tagged(titles@, i as int, t));
                }
            },
            None => {
                assert forall|t: Seq<char>| #[trigger]
                    crate::search_path::texts(names@).contains(t) <==> some_tagged(
                        titles@,
                        i + 1,
                        t,
                    ) by {
                    if some_tagged(titles@, i + 1, t) {
                        let k = choose|k: int|
                            0 <= k < i + 1 && tagged((#[trigger] titles@[k])@) == Some(t);
                        assert(k < i);
                    }
                }
            },
        }
        i += 1;
    }
    names
}

/// Why a Project cannot be created.
#[derive(Clone, Copy, Debug, PartialEq, Eq, Structural)]
pub enum ProjectRefusal {
    Incomplete,
    NoHome,
}

impl ProjectRefusal {
    /// What the user is told.
    pub fn message(&self) -> (text: &'static str)
        ensures
            text@ == match self {
                ProjectRefusal::Incomplete => "Project name and folder are required"@,
                ProjectRefusal::NoHome => "The host has no HOME folder"@,
            },
    {
        match self {
            ProjectRefusal::Incomplete => "Project name and folder are required",
            ProjectRefusal::NoHome => "The host has no HOME folder",
        }
    }
}

/// A relative path below a folder; an absolute one stands for itself.
pub open spec fn joined_path(base: Seq<char>, rest: Seq<char>) -> Seq<char> {
    if rest.len() > 0 && rest[0] == '/' {
        rest
    } else if base.len() == 0 || base.last() == '/' {
        base + rest
    } else {
        base.push('/') + rest
    }
}

/// The folder that a Project is asked for with.
pub open spec fn project_folder(root: Seq<char>, home: Option<Seq<char>>) -> Option<Seq<char>> {
    if root == "~"@ {
        home
    } else if root.len() >= 2 && root[0] == '~' && root[1] == '/' {
        match home {
            Some(base) => Some(joined_path(base, root.skip(2))),
            None => None,
        }
    } else {
        Some(root)
    }
}

/// A name and a folder for a new Project.
#[derive(Debug)]
pub struct ProjectPlan {
    pub name: String,
    pub root: String,
}

/// Work out the name and folder of a new Project. A folder may be given
/// relative to the user's own.
pub fn plan_project(name: &str, root: &str, home: Option<&str>) -> (plan: Result<
    ProjectPlan,
    ProjectRefusal,
>)
    ensures
        ({
            let n = crate::text::trimmed(name@);
            let r = crate::text::trimmed(root@);
            let base = match home {
                Some(text) => Some(text@),
                None => None,
            };
            if n.len() == 0 || r.len() == 0 {
                plan == Err::<ProjectPlan, ProjectRefusal>(ProjectRefusal::Incomplete)
            } else {
                match project_folder(r, base) {
                    None => plan == Err::<ProjectPlan, ProjectRefusal>(ProjectRefusal::NoHome),
                    Some(folder) => plan matches Ok(p) && p.name@ == n && p.root@ == folder,
                }
            }
        }),
{
    let name = trim(name);
    let root = trim(root);
    if name.as_str().is_empty() || root.as_str().is_empty() {
        assert(name@.len() == 0 || root@.len() == 0);
        return Err(ProjectRefusal::Incomplete);
    }
    let chars = chars_of(root.as_str());
    proof {
        reveal_strlit("~");
        assert(root@ == "~"@ <==> root@.len() == 1 && root@[0] == '~') by {
            if root@.len() == 1 && root@[0] == '~' {
                assert(root@ =~= "~"@);
            }
        }
    }
    if chars.len() == 1 && chars[0] == '~' {
        return match home {
            Some(base) => Ok(ProjectPlan { name, root: base.to_owned() }),
            None => Err(ProjectRefusal::NoHome),
        };
    }
    if chars.len() >= 2 && chars[0] == '~' && chars[1] == '/' {
        return match home {
            None => Err(ProjectRefusal::NoHome),
            Some(base) => {
                let rest_chars = vstd::slice::slice_subrange(chars.as_slice(), 2, chars.len());
                let rest = string_of(rest_chars);
                assert(rest@ =~= root@.skip(2));
                let base_chars = chars_of(base);
                let folder = if chars.len() > 2 && chars[2] == '/' {
                    assert(rest@[0] == '/');
                    rest
                } else {
                    let mut folder = base.to_owned();
                    if base_chars.len() > 0 && base_chars[base_chars.len() - 1] != '/' {
                        folder.push('/');
                    }
                    push_text(&mut folder, rest.as_str());
                    folder
                };
                assert(folder@ == joined_path(base@, root@.skip(2)));
                Ok(ProjectPlan { name, root: folder })
            },
        };
    }
    Ok(ProjectPlan { name, root })
}

} // verus!
