//! What the lists and lines around the Panes are about: the agents in view, the
//! focused Pane, and how far the lists are scrolled.
use crate::broadcast::Cell;
use crate::canvas::{file_rows, file_sidebar_rows_for};
use crate::hierarchy::{window_of, Workspace, WorkspaceState};
use crate::notify::{place_of, tab_place};
use crate::pointing::PointerState;
use crate::rail::{order_agents, place_before, AgentPlace, CardSlot};
use crate::scope::SidebarScope;
use crate::server::Server;
use crate::session::Session;
use crate::status::SessionFacts;
use crate::types::{PaneId, Rect};
use vstd::prelude::*;

verus! {

/// An agent at work.
#[derive(Clone, Copy, Debug, PartialEq, Eq, Structural)]
pub struct RunningAgent {
    pub pane: PaneId,
    pub started_at: u64,
}

impl WorkspaceState {
    /// Where an agent stands in the list: nowhere, if no Tab shows its Pane or
    /// the list is about another Project.
    pub open spec fn agent_place(self, agent: RunningAgent, scope: SidebarScope) -> Option<
        AgentPlace,
    > {
        match window_of(self.windows, agent.pane) {
            Some(w) => {
                let project = self.windows[w].project;
                if scope == SidebarScope::Workspace || project == self.active_project {
                    Some(
                        AgentPlace {
                            pane: agent.pane,
                            project: match crate::hierarchy::project_at(self.projects, project) {
                                Some(p) => p as usize,
                                None => usize::MAX,
                            },
                            started_at: agent.started_at,
                        },
                    )
                } else {
                    None
                }
            },
            None => None,
        }
    }

    /// The places of the first `n` agents.
    pub open spec fn agent_places(self, agents: Seq<RunningAgent>, scope: SidebarScope, n: nat) -> Seq<
        AgentPlace,
    >
        decreases n,
    {
        if n == 0 {
            Seq::empty()
        } else {
            let rest = self.agent_places(agents, scope, (n - 1) as nat);
            match self.agent_place(agents[n - 1], scope) {
                Some(place) => rest.push(place),
                None => rest,
            }
        }
    }

    /// What the title and the status line say of the focused Pane.
    pub open spec fn focused_facts(
        self,
        hostname: String,
        workspace: String,
        terminal_title: String,
        agent: Option<String>,
        agent_status: Option<String>,
    ) -> Option<SessionFacts> {
        match crate::hierarchy::project_at(self.projects, self.active_project) {
            Some(p) => {
                let tab = self.windows[self.active_window];
                Some(
                    SessionFacts {
                        hostname,
                        workspace,
                        project: self.projects[p].name,
                        tab_name: tab.name,
                        tab_position: tab_place(
                            crate::hierarchy::tabs_of(self.windows, self.active_project),
                            self.active_window,
                            0,
                        ) as usize,
                        pane: tab.active.0,
                        terminal_title,
                        agent,
                        agent_status,
                        zoomed: tab.zoomed is Some,
                    },
                )
            },
            None => None,
        }
    }
}

impl Workspace {
    /// The agents that the list shows, by Project, by age and by Pane.
    pub fn observatory_agent_entries(&self, agents: &Vec<RunningAgent>, scope: SidebarScope) -> (
    list: Vec<AgentPlace>)
        ensures
            list@.to_multiset() == self@.agent_places(
                agents@,
                scope,
                agents@.len(),
            ).to_multiset(),
            forall|i: int, j: int|
                0 <= i < j < list@.len() ==> place_before(#[trigger] list@[i], #[trigger] list@[j]),
    {
        let mut places: Vec<AgentPlace> = Vec::new();
        let mut i: usize = 0;
        while i < agents.len()
            invariant
                i <= agents@.len(),
                places@ == self@.agent_places(agents@, scope, i as nat),
            decreases agents@.len() - i,
        {
            let agent = agents[i];
            match self.window_of(agent.pane) {
                Some(w) => {
                    proof {
                        crate::tabs::lemma_window_of_found(self@.windows, agent.pane);
                    }
                    let project = self.windows[w].project;
                    if scope == SidebarScope::Workspace || project == self.active_project {
                        let at: usize = match self.project_position(project) {
                            Some(p) => p,
                            None => usize::MAX,
                        };
                        places.push(
                            AgentPlace {
                                pane: agent.pane,
                                project: at,
                                started_at: agent.started_at,
                            },
                        );
                    }
                },
                None => {},
            }
            i += 1;
        }
        order_agents(&places)
    }

    /// What the title and the status line say of the focused Pane.
    pub fn session_facts(
        &self,
        hostname: String,
        workspace: String,
        terminal_title: String,
        agent: Option<String>,
        agent_status: Option<String>,
    ) -> (facts: Option<SessionFacts>)
        requires
            self@.wf(),
        ensures
            facts == self@.focused_facts(hostname, workspace, terminal_title, agent, agent_status),
    {
        match self.project_position(self.active_project) {
            Some(p) => {
                proof {
                    crate::hierarchy::lemma_project_at_found(self@.projects, self@.active_project);
                }
                let tabs = self.project_window_indices(self.active_project);
                let tab_position: usize = place_of(&tabs, self.active_window);
                let tab_name = match &self.windows[self.active_window].name {
                    Some(name) => Some(name.clone()),
                    None => None,
                };
                let tab = &self.windows[self.active_window];
                Some(
                    SessionFacts {
                        hostname,
                        workspace,
                        project: self.projects[p].name.clone(),
                        tab_name,
                        tab_position,
                        pane: tab.active.0,
                        terminal_title,
                        agent,
                        agent_status,
                        zoomed: tab.zoomed.is_some(),
                    },
                )
            },
            None => None,
        }
    }

    /// Take up the scroll positions that the drawn lists have. A list that is
    /// not shown keeps its own; the Tab bar follows the active Tab only once.
    pub fn sync_chrome_viewports(&mut self, projects: Option<&Vec<CardSlot>>, bar_scroll: usize)
        ensures
            final(self)@ == (WorkspaceState {
                project_scroll: match projects {
                    Some(slots) => first_item(slots@),
                    None => old(self)@.project_scroll,
                },
                tab_scroll: bar_scroll as int,
                tab_scroll_follow_active: false,
                ..old(self)@
            }),
    {
        if let Some(slots) = projects {
            self.project_scroll = top_item(slots);
        }
        self.tab_scroll = bar_scroll;
        self.tab_scroll_follow_active = false;
    }
}

/// How the lists and the Tab bar are drawn.
#[derive(Debug)]
pub struct DrawnLists {
    pub projects: Vec<CardSlot>,
    pub agents: Vec<CardSlot>,
    pub servers: Vec<CardSlot>,
    /// How far the Tab bar is scrolled.
    pub tab_scroll: usize,
}

impl PointerState {
    /// The lists of the right sidebar, scrolled as they are drawn.
    pub open spec fn synced(self, shown: bool, drawn: DrawnLists) -> PointerState {
        PointerState {
            agents_scroll: if shown {
                first_item(drawn.agents@) as usize
            } else {
                self.agents_scroll
            },
            servers_scroll: if shown {
                first_item(drawn.servers@) as usize
            } else {
                self.servers_scroll
            },
            ..self
        }
    }
}

impl Server {
    /// Take up the scroll positions that the drawn lists have, before a frame is
    /// painted. A sidebar that is not shown keeps those of its lists.
    pub fn sync_chrome_viewports(&mut self, pointer: &mut PointerState, drawn: &DrawnLists)
        requires
            old(self).wf(),
        ensures
            final(self).wf(),
            final(self).session.workspace@ == (WorkspaceState {
                project_scroll: if old(self).session.canvas().left() > 0 {
                    first_item(drawn.projects@)
                } else {
                    old(self).session.workspace@.project_scroll
                },
                tab_scroll: drawn.tab_scroll as int,
                tab_scroll_follow_active: false,
                ..old(self).session.workspace@
            }),
            *final(self) == (Server {
                session: Session {
                    workspace: final(self).session.workspace,
                    ..old(self).session
                },
                ..*old(self)
            }),
            *final(pointer) == old(pointer).synced(
                old(self).session.canvas().right() > 0,
                *drawn,
            ),
    {
        let canvas = self.session.current_canvas();
        let projects = if canvas.left_width() > 0 {
            Some(&drawn.projects)
        } else {
            None
        };
        if canvas.observatory_width() > 0 {
            pointer.agents_scroll = top_item(&drawn.agents);
            pointer.servers_scroll = top_item(&drawn.servers);
        }
        self.session.workspace.sync_chrome_viewports(projects, drawn.tab_scroll);
    }

    /// The entries that the file tree has room for, where it is shown.
    pub fn sync_file_viewport(&self, has_git_changes: bool) -> (capacity: Option<usize>)
        ensures
            capacity is Some <==> self.session.files_visible(),
            capacity matches Some(n) ==> {
                let rows = file_rows(self.session.canvas().chrome().area, has_git_changes);
                n == rows.tree_end - rows.tree_start
            },
    {
        if !self.session.file_manager_visible() {
            return None;
        }
        let area = self.session.current_canvas().chrome_area().area;
        Some(file_sidebar_rows_for(area, has_git_changes).capacity())
    }
}

fn top_item(slots: &Vec<CardSlot>) -> (item: usize)
    ensures
        item == first_item(slots@),
{
    if slots.len() == 0 {
        0
    } else {
        slots[0].item
    }
}

/// The item at the top of a list.
pub open spec fn first_item(slots: Seq<CardSlot>) -> int {
    if slots.len() == 0 {
        0
    } else {
        slots[0].item as int
    }
}

/// Where the cursor stands on the canvas: in copy mode where that says, else in
/// its Pane.
pub fn active_cursor_pos(rect: Option<Rect>, copy: Option<Cell>, cursor: Cell) -> (at: Option<Cell>)
    requires
        rect matches Some(r) ==> r.x + cursor.col <= u16::MAX && r.y + cursor.row <= u16::MAX,
    ensures
        at == match rect {
            Some(r) => Some(
                match copy {
                    Some(cell) => cell,
                    None => Cell {
                        col: (r.x + cursor.col) as u16,
                        row: (r.y + cursor.row) as u16,
                    },
                },
            ),
            None => None,
        },
{
    match rect {
        Some(r) => Some(
            match copy {
                Some(cell) => cell,
                None => Cell { col: r.x + cursor.col, row: r.y + cursor.row },
            },
        ),
        None => None,
    }
}

} // verus!
