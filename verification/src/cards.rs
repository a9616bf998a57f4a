//! What fills the cards of the sidebars: an agent with the notes of its Pane,
//! and a Project with its worktree, its notes or its path.
use crate::detection::AgentStatus;
use crate::hierarchy::project_at;
use crate::launch::opt_text;
use crate::listings::{among, keep_among, project_panes};
use crate::metadata::{MetadataStore, Note};
use crate::path_text::{compact_project_path, compacted, home_text};
use crate::rail::{project_detail, AgentCard, ProjectCard};
use crate::server::Server;
use crate::text::{push_decimal, push_text};
use crate::types::{PaneId, ProjectId};
use vstd::prelude::*;

verus! {

/// An agent, as its provider and the runs that it serves describe it.
#[derive(Debug)]
pub struct AgentFacts {
    pub pane: PaneId,
    pub project: ProjectId,
    /// The name that the provider goes by.
    pub name: String,
    pub status: AgentStatus,
    /// The status in words.
    pub label: String,
    /// The agent's color, as an escape sequence names it.
    pub color: String,
    /// The branch of the Project's worktree, where the Project is one.
    pub branch: Option<String>,
    /// The run that the agent serves, and its role there.
    pub run: Option<RunRole>,
}

/// A role of a run.
#[derive(Debug)]
pub struct RunRole {
    pub run: u64,
    pub role: String,
}

/// The worktree that a Project is.
#[derive(Debug)]
pub struct ProjectWorktree {
    pub branch: String,
    pub repository: String,
}

/// The first of these notes that an owner has.
pub open spec fn first_note(
    notes: Map<(u64, Seq<char>), Note>,
    owner: u64,
    keys: Seq<Seq<char>>,
) -> Option<Seq<char>>
    decreases keys.len(),
{
    if keys.len() == 0 {
        None
    } else if notes.dom().contains((owner, keys[0])) {
        Some(notes[(owner, keys[0])].value)
    } else {
        first_note(notes, owner, keys.skip(1))
    }
}

/// The notes that an agent's card looks for, in order.
pub open spec fn agent_keys() -> Seq<Seq<char>> {
    seq!["task"@, "model"@, "branch"@, "title"@, "cwd"@]
}

/// The notes that a Project's card looks for, in order.
pub open spec fn project_keys() -> Seq<Seq<char>> {
    seq!["branch"@, "environment"@, "task"@]
}

fn find_note(notes: &MetadataStore, owner: u64, keys: &Vec<&str>, from: usize) -> (note: Option<
    String,
>)
    requires
        notes.wf(),
        from <= keys@.len(),
    ensures
        opt_text(note) == first_note(
            notes@,
            owner,
            keys@.skip(from as int).map_values(|key: &str| key@),
        ),
    decreases keys@.len() - from,
{
    let ghost left = keys@.skip(from as int).map_values(|key: &str| key@);
    if from == keys.len() {
        return None;
    }
    assert(left[0] == keys@[from as int]@);
    match notes.get(owner, keys[from]) {
        Some(text) => Some(text.clone()),
        None => {
            assert(left.skip(1) =~= keys@.skip(from + 1).map_values(|key: &str| key@));
            find_note(notes, owner, keys, from + 1)
        },
    }
}

/// The style of an agent's name: bold where it has the focus.
pub open spec fn agent_style(color: Seq<char>, active: bool) -> Seq<char> {
    if active {
        "\u{1b}[0;1;"@ + color + ";49m"@
    } else {
        "\u{1b}[0;"@ + color + ";49m"@
    }
}

/// The run and role of an agent.
pub open spec fn run_text(run: Option<RunRole>) -> Option<Seq<char>> {
    match run {
        Some(r) => Some(
            "Run "@ + crate::text::decimal(r.run as nat) + " / "@ + r.role@,
        ),
        None => None,
    }
}

fn write_run(run: &Option<RunRole>) -> (text: Option<String>)
    ensures
        opt_text(text) == run_text(*run),
{
    match run {
        Some(r) => {
            let mut text = "Run ".to_owned();
            push_decimal(&mut text, r.run);
            push_text(&mut text, " / ");
            push_text(&mut text, r.role.as_str());
            Some(text)
        },
        None => None,
    }
}

/// What stands below a Project's name: the branch and the repository of its
/// worktree, else the first of its notes, else its path.
pub open spec fn project_line(
    worktree: Option<ProjectWorktree>,
    note: Option<Seq<char>>,
    root: Seq<char>,
    home: Option<Seq<char>>,
) -> Seq<char> {
    match (worktree, note) {
        (Some(tree), _) => tree.branch@ + " \u{b7} "@ + compacted(tree.repository@, home),
        (None, Some(text)) => text,
        (None, None) => compacted(root, home),
    }
}

impl Server {
    /// Fill an agent's card.
    pub fn agent_card(&self, facts: &AgentFacts) -> (card: AgentCard)
        requires
            self.wf(),
        ensures
            card.name@ == facts.name@,
            card.status == facts.status,
            card.label@ == facts.label@,
            card.active == (self.session.workspace@.tab().active == facts.pane),
            card.style@ == agent_style(facts.color@, card.active),
            match project_at(self.session.workspace@.projects, facts.project) {
                Some(i) => {
                    &&& opt_text(card.project) == Some(
                        self.session.workspace@.projects[i].name@,
                    )
                    &&& opt_text(card.branch) == opt_text(facts.branch)
                },
                None => card.project is None && card.branch is None,
            },
            opt_text(card.run) == run_text(facts.run),
            opt_text(card.note) == first_note(self.pane_notes@, facts.pane.0, agent_keys()),
    {
        let workspace = &self.session.workspace;
        let active = workspace.windows[workspace.active_window].active == facts.pane;
        let mut style = if active {
            "\u{1b}[0;1;".to_owned()
        } else {
            "\u{1b}[0;".to_owned()
        };
        push_text(&mut style, facts.color.as_str());
        push_text(&mut style, ";49m");
        let mut keys: Vec<&str> = Vec::new();
        keys.push("task");
        keys.push("model");
        keys.push("branch");
        keys.push("title");
        keys.push("cwd");
        assert(keys@.skip(0).map_values(|key: &str| key@) =~= agent_keys());
        let note = find_note(&self.pane_notes, facts.pane.0, &keys, 0);
        let (project, branch) = match workspace.project_position(facts.project) {
            Some(i) => {
                let branch = match &facts.branch {
                    Some(text) => Some(text.clone()),
                    None => None,
                };
                proof {
                    crate::hierarchy::lemma_project_at_found(
                        workspace@.projects,
                        facts.project,
                    );
                }
                (Some(workspace.projects[i].name.clone()), branch)
            },
            None => (None, None),
        };
        AgentCard {
            name: facts.name.clone(),
            status: facts.status,
            label: facts.label.clone(),
            active,
            style,
            branch,
            project,
            run: write_run(&facts.run),
            note,
        }
    }

    /// Fill the card of the Project at a position. `needy` are the Panes whose
    /// agent waits for a human.
    pub fn project_card(
        &self,
        at: usize,
        worktree: &Option<ProjectWorktree>,
        needy: &Vec<PaneId>,
        home: Option<&str>,
    ) -> (card: ProjectCard)
        requires
            self.wf(),
            at < self.session.workspace@.projects.len(),
        ensures
            ({
                let s = self.session.workspace@;
                let project = s.projects[at as int];
                let panes = project_panes(s.windows, project.id, s.windows.len());
                &&& card.name == project.name
                &&& card.active == (project.id == s.active_project)
                &&& card.attention == among(panes, panes.len(), needy@).len()
                &&& card.detail@ == project_line(
                    *worktree,
                    first_note(self.project_notes@, project.id.0, project_keys()),
                    project.root@,
                    home_text(home),
                )
            }),
    {
        let workspace = &self.session.workspace;
        let project = &workspace.projects[at];
        let panes = workspace.panes_of_project(project.id);
        let mut keys: Vec<&str> = Vec::new();
        keys.push("branch");
        keys.push("environment");
        keys.push("task");
        assert(keys@.skip(0).map_values(|key: &str| key@) =~= project_keys());
        let note = find_note(&self.project_notes, project.id.0, &keys, 0);
        let tree = match worktree {
            Some(tree) => {
                let mut text = tree.branch.clone();
                push_text(&mut text, " \u{b7} ");
                let path = compact_project_path(tree.repository.as_str(), home);
                push_text(&mut text, path.as_str());
                Some(text)
            },
            None => None,
        };
        ProjectCard {
            name: project.name.clone(),
            active: project.id == workspace.active_project,
            attention: keep_among(&panes, needy).len(),
            detail: project_detail(
                tree,
                note,
                compact_project_path(project.root.as_str(), home),
            ),
        }
    }
}

} // verus!
