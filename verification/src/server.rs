//! The server of one Workspace: all of its state, and what concerns the whole
//! of it.
use crate::broadcast::Shown;
use crate::canvas::Canvas;
use crate::checkpoint::{next_deadline, CheckpointState};
use crate::clients::{ClientInfo, Clients};
use crate::commands::{FileTreeChange, ObservatoryTab, ViewState};
use crate::chrome_text::{sanitize_chrome_text, sanitized};
use crate::files::FileTree;
use crate::hierarchy::{unshown, Project, Win, Workspace, WorkspaceState};
use crate::instruction::InstructionQueue;
use crate::layout::LayoutNode;
use crate::metadata::{MetaEntry, MetadataStore, Note};
use crate::notify::{Notifications, PendingNotification};
use crate::pane_io::PendingReads;
use crate::replies::RuntimeSide;
use crate::scope::SidebarScope;
use crate::session::{Session, Toast};
use crate::settings::Config;
use crate::retiring::RetiringPane;
use crate::sources::Sources;
use crate::text::same_text;
use crate::types::{PaneId, ProjectId, Token};
use vstd::prelude::*;

verus! {

/// The lists of Projects and Tabs that are remembered between runs.
#[derive(Debug)]
pub struct Catalog {
    /// Off where the server is not to leave traces on the machine.
    pub enabled: bool,
    /// The line that was handed over last.
    pub last_line: Option<String>,
}

/// The server of one Workspace.
#[derive(Debug)]
pub struct Server {
    /// The name that the Workspace goes by.
    pub name: String,
    /// The machine that runs the Panes.
    pub hostname: String,
    /// The shell that Panes run.
    pub program: String,
    pub session: Session,
    pub runtime: RuntimeSide,
    pub shown: Shown,
    pub checkpoint: CheckpointState,
    pub sources: Sources,
    /// The processes of closed Panes that may still run.
    pub retiring_ptys: Vec<RetiringPane>,
    pub pending_reads: PendingReads,
    pub files: FileTree,
    pub instructions: InstructionQueue,
    pub notifications: Notifications,
    pub toast: Option<Toast>,
    pub pane_notes: MetadataStore,
    pub project_notes: MetadataStore,
    pub agent_scope: SidebarScope,
    pub server_scope: SidebarScope,
    pub catalog: Catalog,
    pub next_pane_id: u64,
    pub running: bool,
}

/// The host's name as it is shown: without control codes, and never empty.
pub open spec fn shown_hostname(found: Option<Seq<char>>) -> Seq<char> {
    match found {
        Some(text) => if sanitized(text, 255).len() == 0 {
            "localhost"@
        } else {
            sanitized(text, 255)
        },
        None => "localhost"@,
    }
}

/// The host's name as it is shown.
pub fn system_hostname(found: Option<&str>) -> (name: String)
    ensures
        name@ == shown_hostname(
            match found {
                Some(text) => Some(text@),
                None => None,
            },
        ),
{
    match found {
        Some(text) => {
            let name = sanitize_chrome_text(text, 255);
            let none = name.as_str().is_empty();
            assert(none == (name@.len() == 0));
            if none {
                "localhost".to_owned()
            } else {
                name
            }
        },
        None => "localhost".to_owned(),
    }
}

/// Why a Workspace cannot be opened.
#[derive(Debug)]
pub enum NameError {
    /// The socket has no name that can be read.
    NoStem,
    Invalid { name: String, reason: String },
}

impl NameError {
    /// What the user is told.
    pub open spec fn words(self) -> Seq<char> {
        match self {
            NameError::NoStem => "Workspace socket needs a UTF-8 file stem"@,
            NameError::Invalid { name, reason } => "invalid Workspace name '"@ + name@ + "': "@
                + reason@,
        }
    }

    /// What the user is told.
    pub fn text(&self) -> (text: String)
        ensures
            text@ == self.words(),
    {
        match self {
            NameError::NoStem => "Workspace socket needs a UTF-8 file stem".to_owned(),
            NameError::Invalid { name, reason } => {
                let mut text = "invalid Workspace name '".to_owned();
                crate::text::push_text(&mut text, name.as_str());
                crate::text::push_text(&mut text, "': ");
                crate::text::push_text(&mut text, reason.as_str());
                text
            },
        }
    }
}

/// The name of the Workspace behind a socket. `rejected` says why the name is
/// not a valid one.
pub fn workspace_name(stem: Option<String>, rejected: Option<String>) -> (name: Result<
    String,
    NameError,
>)
    ensures
        name == match (stem, rejected) {
            (None, _) => Err(NameError::NoStem),
            (Some(found), Some(reason)) => Err(NameError::Invalid { name: found, reason }),
            (Some(found), None) => Ok(found),
        },
{
    match (stem, rejected) {
        (None, _) => Err(NameError::NoStem),
        (Some(found), Some(reason)) => Err(NameError::Invalid { name: found, reason }),
        (Some(found), None) => Ok(found),
    }
}

/// At least one.
pub open spec fn positive(n: u16) -> u16 {
    if n == 0 {
        1
    } else {
        n
    }
}

fn at_least_one(n: u16) -> (m: u16)
    ensures
        m == positive(n),
{
    if n == 0 {
        1
    } else {
        n
    }
}

/// The canvas that settings ask for.
pub open spec fn framed(config: Config, cols: u16, rows: u16) -> Canvas {
    Canvas {
        cols,
        rows,
        sidebar: config.sidebar,
        sidebar_width: config.sidebar_width,
        file_sidebar: config.file_sidebar,
        file_sidebar_width: config.file_sidebar_width,
        status: config.status,
        status_top: config.status_top,
    }
}

pub(crate) fn frame_of(config: &Config, cols: u16, rows: u16) -> (canvas: Canvas)
    ensures
        canvas == framed(*config, cols, rows),
{
    Canvas {
        cols,
        rows,
        sidebar: config.sidebar,
        sidebar_width: config.sidebar_width,
        file_sidebar: config.file_sidebar,
        file_sidebar_width: config.file_sidebar_width,
        status: config.status,
        status_top: config.status_top,
    }
}

/// What a server is opened with.
#[derive(Debug)]
pub struct Opening {
    pub name: String,
    pub hostname: String,
    pub program: String,
    pub cols: u16,
    pub rows: u16,
    /// The directory that the first Project is made for, and its name, where
    /// it has one.
    pub root: String,
    pub folder: Option<String>,
    /// Where agents are looked for.
    pub search_path: Vec<String>,
    /// What the tokens of runs are drawn from.
    pub seed: u64,
    pub config: Config,
    /// The longest instruction, and the most that wait for one process.
    pub instruction_chars: usize,
    pub instruction_capacity: usize,
    /// Off while a Workspace is being brought back.
    pub writes_enabled: bool,
}

/// The name of the first Project.
pub open spec fn first_project_name(folder: Option<String>) -> Seq<char> {
    match folder {
        Some(name) => if name@.len() == 0 {
            "Default"@
        } else {
            name@
        },
        None => "Default"@,
    }
}

/// A Workspace with one Project, whose only Tab shows one Pane.
pub open spec fn fresh(s: WorkspaceState, root: String, name: Seq<char>, first: PaneId) -> bool {
    let project = ProjectId(1);
    &&& s.windows == seq![Win::single(project, first, None)]
    &&& s.active_window == 0
    &&& s.last_active_pane is None
    &&& s.projects.len() == 1
    &&& s.projects[0].id == project
    &&& s.projects[0].name@ == name
    &&& s.projects[0].root == root
    &&& s.projects[0].active_pane == Some(first)
    &&& s.active_project == project
    &&& s.next_project_id == 2
    &&& s.project_scroll == 0
    &&& s.tab_scroll == 0
    &&& s.tab_scroll_follow_active
    &&& s.overview is None
}

fn first_workspace(root: String, name: String, first: PaneId) -> (workspace: Workspace)
    ensures
        workspace@.wf(),
        workspace@.all_open(),
        fresh(workspace@, root, name@, first),
{
    let project = ProjectId(1);
    let mut windows: Vec<Win> = Vec::new();
    windows.push(
        Win { project, layout: LayoutNode::Leaf(first), active: first, zoomed: None, name: None },
    );
    let mut projects: Vec<Project> = Vec::new();
    projects.push(Project { id: project, name, root, active_pane: Some(first) });
    let workspace = Workspace {
        windows,
        active_window: 0,
        last_active_pane: None,
        projects,
        active_project: project,
        next_project_id: 2,
        project_scroll: 0,
        tab_scroll: 0,
        tab_scroll_follow_active: true,
        overview: None,
    };
    proof {
        let s = workspace@;
        assert(s.windows =~= seq![Win::single(project, first, None)]);
        assert(s.windows[0].layout.panes() == seq![first]);
        assert(s.windows[0].layout.panes()[0] == first);
        assert(s.windows[0].shows(first));
        assert(s.projects[0].id == project);
    }
    workspace
}

/// The deadlines of a list of notes.
pub open spec fn note_deadlines(entries: Seq<MetaEntry>) -> Seq<Option<u64>> {
    Seq::new(entries.len(), |i: int| entries[i].expires)
}

/// The deadlines of notices that are about to be told.
pub open spec fn notice_deadlines(pending: Seq<PendingNotification>) -> Seq<Option<u64>> {
    Seq::new(pending.len(), |i: int| Some(pending[i].due))
}

/// What the host does about a new name.
#[derive(Debug)]
pub struct Renamed {
    /// The name whose snapshot, log and socket are to follow.
    pub old: String,
    /// The catalog's entry is to follow as well.
    pub catalog: bool,
    /// The clients that are told.
    pub tell: Vec<Token>,
}

/// What the host does about the end.
#[derive(Debug)]
pub struct Shutdown {
    /// The clients that are told.
    pub tell: Vec<Token>,
    /// The line to hand to the catalog.
    pub line: Option<String>,
}

/// The tokens of the first `n` clients.
pub open spec fn tokens_of(list: Seq<ClientInfo>, n: nat) -> Seq<Token> {
    Seq::new(n, |i: int| list[i].token)
}

impl Catalog {
    /// A line is to be handed over: the catalog is on, and the line says
    /// something new.
    pub open spec fn takes(self, line: Option<String>) -> bool {
        &&& self.enabled
        &&& line matches Some(text) && !(self.last_line matches Some(last) && last@ == text@)
    }

    /// Remember the structure of the Workspace; gives the line to hand over.
    /// What is remembered already is not written again.
    pub fn persist_workspace_definition(&mut self, line: Option<String>) -> (append: Option<String>)
        ensures
            append == if old(self).takes(line) {
                line
            } else {
                None
            },
            *final(self) == if old(self).takes(line) {
                Catalog { last_line: line, ..*old(self) }
            } else {
                *old(self)
            },
    {
        if !self.enabled {
            return None;
        }
        match line {
            None => None,
            Some(text) => {
                let known = match &self.last_line {
                    Some(last) => same_text(last.as_str(), text.as_str()),
                    None => false,
                };
                if known {
                    None
                } else {
                    self.last_line = Some(text.clone());
                    Some(text)
                }
            },
        }
    }
}

/// A structure that was remembered is not written a second time.
pub proof fn lemma_definition_written_once(catalog: Catalog, line: Option<String>)
    requires
        catalog.takes(line),
    ensures
        !(Catalog { last_line: line, ..catalog }).takes(line),
{
}

/// Every Pane that is shown has an id below `next`.
pub open spec fn ids_below(windows: Seq<Win>, next: int) -> bool {
    forall|pane: PaneId| #[trigger] unshown(windows, pane) || pane.0 < next
}

impl Server {
    /// The invariant of a running server.
    pub open spec fn wf(self) -> bool {
        &&& self.session.wf()
        &&& self.runtime.wf()
        &&& self.sources.wf()
        &&& self.instructions.wf()
        &&& self.pane_notes.wf()
        &&& self.project_notes.wf()
        &&& self.ids_drawn()
    }

    /// Every Pane that is shown has an id that was drawn before.
    pub open spec fn ids_drawn(self) -> bool {
        ids_below(self.session.workspace@.windows, self.next_pane_id as int)
    }

    /// The server is set up as its settings ask for.
    pub open spec fn configured(self) -> bool {
        &&& self.session.view.sidebar == self.runtime.config.sidebar
        &&& self.session.view.file_sidebar == self.runtime.config.file_sidebar
        &&& self.session.frame == framed(
            self.runtime.config,
            self.session.frame.cols,
            self.session.frame.rows,
        )
    }

    /// Open a server whose first Pane is there.
    pub fn open(opening: Opening, first: PaneId, sources: Sources) -> (server: Server)
        requires
            sources.wf(),
            first.0 < u64::MAX,
        ensures
            server.wf(),
            server.configured(),
            server.name == opening.name,
            server.hostname == opening.hostname,
            server.program == opening.program,
            fresh(
                server.session.workspace@,
                opening.root,
                first_project_name(opening.folder),
                first,
            ),
            server.session.workspace@.all_open(),
            server.session.clients.list@.len() == 0,
            server.session.clients.cols == positive(opening.cols),
            server.session.clients.rows == positive(opening.rows),
            server.session.view == (ViewState {
                context_menu: false,
                sidebar: opening.config.sidebar,
                file_sidebar: opening.config.file_sidebar,
                observatory_tab: ObservatoryTab::Agents,
                files_focused: false,
            }),
            server.session.search_path == opening.search_path,
            server.runtime.config == opening.config,
            server.runtime.runs.token_state == opening.seed,
            server.runtime.durability_error is None,
            server.shown == (Shown { cursor: None, cursor_visible: None, title: None }),
            server.checkpoint == (CheckpointState {
                deadline: None,
                writes_enabled: opening.writes_enabled,
            }),
            server.sources == sources,
            server.retiring_ptys@.len() == 0,
            server.pending_reads.tokens@.len() == 0,
            server.files == (FileTree { project: ProjectId(1), root: opening.root }),
            server.instructions.items@.len() == 0,
            server.instructions.max_chars == opening.instruction_chars,
            server.instructions.capacity == opening.instruction_capacity,
            server.instructions.next_id == 1,
            server.instructions.next_delivery == 1,
            server.runtime.runs.workflows@.len() == 0,
            server.runtime.runs.relays@.len() == 0,
            server.runtime.runs.submissions@.len() == 0,
            server.runtime.runs.deliveries@.len() == 0,
            server.runtime.runs.relay_activations@.len() == 0,
            server.runtime.servers.list@.len() == 0,
            server.runtime.servers.next == 1,
            server.runtime.observations.pending@.len() == 0,
            server.runtime.observations.dirty@.len() == 0,
            server.pane_notes@ == Map::<(u64, Seq<char>), Note>::empty(),
            server.project_notes@ == Map::<(u64, Seq<char>), Note>::empty(),
            server.notifications.pending@.len() == 0,
            server.toast is None,
            server.agent_scope == SidebarScope::Project,
            server.server_scope == SidebarScope::Project,
            server.catalog == (Catalog { enabled: false, last_line: None }),
            server.next_pane_id == first.0 + 1,
            server.running,
    {
        let name = match opening.folder {
            Some(folder) => {
                let none = folder.as_str().is_empty();
                assert(none == (folder@.len() == 0));
                if none {
                    "Default".to_owned()
                } else {
                    folder
                }
            },
            None => "Default".to_owned(),
        };
        let cols = at_least_one(opening.cols);
        let rows = at_least_one(opening.rows);
        let frame = frame_of(&opening.config, cols, rows);
        let view = ViewState {
            context_menu: false,
            sidebar: opening.config.sidebar,
            file_sidebar: opening.config.file_sidebar,
            observatory_tab: ObservatoryTab::Agents,
            files_focused: false,
        };
        let mut files = FileTree::new(ProjectId(1));
        files.reset(ProjectId(1), opening.root.clone());
        let clients = Clients::new(cols, rows);
        let server = Server {
            name: opening.name,
            hostname: opening.hostname,
            program: opening.program,
            session: Session {
                workspace: first_workspace(opening.root, name, first),
                view,
                clients,
                search_path: opening.search_path,
                frame,
            },
            runtime: RuntimeSide {
                config: opening.config,
                servers: crate::dev_servers::DevServers::new(),
                observations: crate::artifact::ObservationQueue::new(),
                runs: crate::orchestration::Orchestrations::new(opening.seed),
                durability_error: None,
            },
            shown: Shown::new(),
            checkpoint: CheckpointState { deadline: None, writes_enabled: opening.writes_enabled },
            sources,
            retiring_ptys: Vec::new(),
            pending_reads: PendingReads { tokens: Vec::new() },
            files,
            instructions: InstructionQueue::new(
                opening.instruction_chars,
                opening.instruction_capacity,
            ),
            notifications: Notifications::new(),
            toast: None,
            pane_notes: MetadataStore::new(),
            project_notes: MetadataStore::new(),
            agent_scope: SidebarScope::Project,
            server_scope: SidebarScope::Project,
            catalog: Catalog { enabled: false, last_line: None },
            next_pane_id: first.0 + 1,
            running: true,
        };
        proof {
            let windows = server.session.workspace@.windows;
            assert forall|pane: PaneId| #[trigger] unshown(windows, pane) || pane.0
                < server.next_pane_id by {
                if pane != first {
                    crate::hierarchy::lemma_single(ProjectId(1), first, None);
                    assert(unshown(windows, pane));
                }
            }
        }
        server
    }

    /// The name that the Workspace goes by.
    pub fn name(&self) -> (name: &str)
        ensures
            name@ == self.name@,
    {
        self.name.as_str()
    }

    /// Put other settings in force; gives what the file tree is left to do.
    pub fn set_config(&mut self, config: Config) -> (files: FileTreeChange)
        requires
            old(self).wf(),
        ensures
            final(self).wf(),
            final(self).configured(),
            final(self).runtime.config == config,
            *final(self) == (Server {
                session: final(self).session,
                runtime: RuntimeSide { config, ..old(self).runtime },
                ..*old(self)
            }),
            ({
                let visible = final(self).session.files_visible();
                &&& final(self).session == (Session {
                    view: ViewState {
                        sidebar: config.sidebar,
                        file_sidebar: config.file_sidebar,
                        files_focused: visible && old(self).session.view.files_focused,
                        ..old(self).session.view
                    },
                    frame: framed(
                        config,
                        old(self).session.frame.cols,
                        old(self).session.frame.rows,
                    ),
                    ..old(self).session
                })
                &&& files == if visible {
                    FileTreeChange::Sync { focus: false }
                } else {
                    FileTreeChange::Stop
                }
            }),
    {
        self.session.frame = frame_of(
            &config,
            self.session.frame.cols,
            self.session.frame.rows,
        );
        self.session.view.sidebar = config.sidebar;
        self.session.view.file_sidebar = config.file_sidebar;
        self.runtime.config = config;
        if self.session.file_manager_visible() {
            FileTreeChange::Sync { focus: false }
        } else {
            self.session.view.files_focused = false;
            FileTreeChange::Stop
        }
    }

    /// A fresh Pane's id. Ids are not used again.
    pub fn draw_pane_id(&mut self) -> (id: PaneId)
        requires
            old(self).next_pane_id < u64::MAX,
        ensures
            id == PaneId(old(self).next_pane_id),
            *final(self) == (Server {
                next_pane_id: (old(self).next_pane_id + 1) as u64,
                ..*old(self)
            }),
            old(self).wf() ==> unshown(old(self).session.workspace@.windows, id)
                && final(self).wf(),
    {
        let id = PaneId(self.next_pane_id);
        self.next_pane_id += 1;
        id
    }

    /// The directory that a new Pane starts in: the active Project's, where
    /// there is one.
    pub fn spawn_directory(&self) -> (root: Option<String>)
        ensures
            root == match crate::hierarchy::project_at(
                self.session.workspace@.projects,
                self.session.workspace@.active_project,
            ) {
                Some(p) => Some(self.session.workspace@.projects[p].root),
                None => None,
            },
    {
        match self.session.workspace.project_position(self.session.workspace.active_project) {
            Some(p) => {
                proof {
                    crate::hierarchy::lemma_project_at_found(
                        self.session.workspace@.projects,
                        self.session.workspace@.active_project,
                    );
                }
                Some(self.session.workspace.projects[p].root.clone())
            },
            None => None,
        }
    }

    /// The deadlines that are armed. `candidates` are those of detections that
    /// are held back, `waits` those of clients that wait for an answer.
    pub open spec fn armed(self, candidates: Seq<Option<u64>>, waits: Seq<Option<u64>>) -> Seq<
        Option<u64>,
    > {
        candidates + note_deadlines(self.pane_notes.entries@) + notice_deadlines(
            self.notifications.pending@,
        ) + waits + seq![
            match self.toast {
                Some(toast) => Some(toast.expires),
                None => None,
            },
            crate::orchestration::orchestration_due(
                self.runtime.runs.submissions@,
                self.runtime.runs.deliveries@,
                self.runtime.runs.workflows@,
                self.runtime.runs.relays@,
            ),
            self.checkpoint.deadline,
        ]
    }

    /// When the loop is to wake up by itself.
    pub fn next_detection_deadline(&self, candidates: &Vec<Option<u64>>, waits: &Vec<Option<u64>>) -> (
    at: Option<u64>)
        ensures
            ({
                let armed = self.armed(candidates@, waits@);
                at == crate::checkpoint::earliest(armed, armed.len())
            }),
    {
        let mut list: Vec<Option<u64>> = Vec::new();
        let mut i: usize = 0;
        while i < candidates.len()
            invariant
                i <= candidates@.len(),
                list@ == candidates@.take(i as int),
            decreases candidates@.len() - i,
        {
            list.push(candidates[i]);
            i += 1;
            assert(list@ =~= candidates@.take(i as int));
        }
        assert(candidates@.take(i as int) =~= candidates@);
        let ghost head = list@;
        let mut k: usize = 0;
        assert(list@ =~= head + note_deadlines(self.pane_notes.entries@).take(0));
        while k < self.pane_notes.entries.len()
            invariant
                k <= self.pane_notes.entries@.len(),
                list@ == head + note_deadlines(self.pane_notes.entries@).take(k as int),
            decreases self.pane_notes.entries@.len() - k,
        {
            list.push(self.pane_notes.entries[k].expires);
            k += 1;
            assert(list@ =~= head + note_deadlines(self.pane_notes.entries@).take(k as int));
        }
        let ghost noted = head + note_deadlines(self.pane_notes.entries@);
        assert(list@ =~= noted);
        let mut n: usize = 0;
        assert(list@ =~= noted + notice_deadlines(self.notifications.pending@).take(0));
        while n < self.notifications.pending.len()
            invariant
                n <= self.notifications.pending@.len(),
                list@ == noted + notice_deadlines(self.notifications.pending@).take(n as int),
            decreases self.notifications.pending@.len() - n,
        {
            list.push(Some(self.notifications.pending[n].due));
            n += 1;
            assert(list@ =~= noted + notice_deadlines(self.notifications.pending@).take(n as int));
        }
        let ghost told = noted + notice_deadlines(self.notifications.pending@);
        assert(list@ =~= told);
        let mut w: usize = 0;
        assert(list@ =~= told + waits@.take(0));
        while w < waits.len()
            invariant
                w <= waits@.len(),
                list@ == told + waits@.take(w as int),
            decreases waits@.len() - w,
        {
            list.push(waits[w]);
            w += 1;
            assert(list@ =~= told + waits@.take(w as int));
        }
        assert(list@ =~= told + waits@);
        list.push(
            match &self.toast {
                Some(toast) => Some(toast.expires),
                None => None,
            },
        );
        list.push(self.runtime.runs.deadline());
        list.push(self.checkpoint.deadline);
        assert(list@ =~= self.armed(candidates@, waits@));
        next_deadline(&list)
    }

    /// Write the Workspace down. `line` is its structure, for the catalog.
    /// `None` where nothing may be written any more; otherwise what is to be
    /// handed to the catalog.
    pub fn persist(&mut self, line: Option<String>) -> (written: Option<Option<String>>)
        ensures
            written == if old(self).checkpoint.writes_enabled {
                Some(
                    if old(self).catalog.takes(line) {
                        line
                    } else {
                        None
                    },
                )
            } else {
                None
            },
            *final(self) == (Server {
                checkpoint: CheckpointState { deadline: None, ..old(self).checkpoint },
                catalog: if old(self).checkpoint.writes_enabled && old(self).catalog.takes(line) {
                    Catalog { last_line: line, ..old(self).catalog }
                } else {
                    old(self).catalog
                },
                ..*old(self)
            }),
    {
        if !self.checkpoint.persist() {
            return None;
        }
        Some(self.catalog.persist_workspace_definition(line))
    }

    /// Rename the Workspace. Refused where the name is not valid, is the
    /// present one, or is not free; `free` says that nothing of that name is
    /// there and that the socket could be moved.
    pub fn rename_session(&mut self, name: String, valid: bool, free: bool) -> (renamed: Option<
        Renamed,
    >)
        ensures
            ({
                let goes = valid && name@ != old(self).name@ && free;
                &&& renamed is Some == goes
                &&& *final(self) == if goes {
                    Server { name, ..*old(self) }
                } else {
                    *old(self)
                }
                &&& renamed matches Some(plan) ==> plan.old == old(self).name && plan.catalog
                    == old(self).catalog.enabled && plan.tell@
                    == crate::broadcast::attached_tokens(
                    old(self).session.clients.list@,
                    old(self).session.clients.list@.len(),
                )
            }),
    {
        if !valid || same_text(name.as_str(), self.name.as_str()) || !free {
            return None;
        }
        let old_name = self.name.clone();
        let tell = self.session.clients.attached_clients();
        self.name = name;
        Some(Renamed { old: old_name, catalog: self.catalog.enabled, tell })
    }

    /// Stop. The structure is remembered first; from then on nothing is written
    /// any more, so that no later checkpoint brings the deleted state back.
    pub fn shutdown(&mut self, line: Option<String>) -> (end: Shutdown)
        ensures
            !final(self).running,
            !final(self).checkpoint.writes_enabled,
            end.tell@ == tokens_of(
                old(self).session.clients.list@,
                old(self).session.clients.list@.len(),
            ),
            end.line == if old(self).catalog.takes(line) {
                line
            } else {
                None
            },
            *final(self) == (Server {
                checkpoint: CheckpointState { writes_enabled: false, ..old(self).checkpoint },
                catalog: final(self).catalog,
                running: false,
                ..*old(self)
            }),
            final(self).catalog == if old(self).catalog.takes(line) {
                Catalog { last_line: line, ..old(self).catalog }
            } else {
                old(self).catalog
            },
    {
        let mut tell: Vec<Token> = Vec::new();
        let mut i: usize = 0;
        while i < self.session.clients.list.len()
            invariant
                i <= self.session.clients.list@.len(),
                *self == *old(self),
                tell@ == tokens_of(self.session.clients.list@, i as nat),
            decreases self.session.clients.list@.len() - i,
        {
            tell.push(self.session.clients.list[i].token);
            i += 1;
            assert(tell@ =~= tokens_of(self.session.clients.list@, i as nat));
        }
        let line = self.catalog.persist_workspace_definition(line);
        self.checkpoint.freeze();
        self.running = false;
        Shutdown { tell, line }
    }

    /// Take up the preferences of a remembered Workspace.
    pub fn restore_workspace_preferences(&mut self, agents_everywhere: bool, servers_everywhere: bool)
        ensures
            *final(self) == (Server {
                agent_scope: if agents_everywhere {
                    SidebarScope::Workspace
                } else {
                    SidebarScope::Project
                },
                server_scope: if servers_everywhere {
                    SidebarScope::Workspace
                } else {
                    SidebarScope::Project
                },
                ..*old(self)
            }),
    {
        self.agent_scope = SidebarScope::from_workspace_flag(agents_everywhere);
        self.server_scope = SidebarScope::from_workspace_flag(servers_everywhere);
    }
}

/// After a clean stop nothing is written, whatever falls due: the next start
/// does not take the stop for a crash.
pub proof fn lemma_nothing_written_after_stop(server: Server, times: Seq<u64>)
    requires
        !server.checkpoint.writes_enabled,
    ensures
        !crate::checkpoint::dirtied(server.checkpoint, times).writes_enabled,
    decreases times.len(),
{
    if times.len() > 0 {
        lemma_nothing_written_after_stop(server, times.drop_last());
    }
}

/// The loop wakes no later than any deadline that is armed, and does not wake
/// by itself where none is.
pub proof fn lemma_wakes_in_time(server: Server, candidates: Seq<Option<u64>>, waits: Seq<Option<u64>>)
    ensures
        ({
            let armed = server.armed(candidates, waits);
            let at = crate::checkpoint::earliest(armed, armed.len());
            &&& forall|i: int|
                0 <= i < armed.len() ==> ((#[trigger] armed[i]) matches Some(due) ==> at is Some
                    && at->0 <= due)
            &&& (forall|i: int| 0 <= i < armed.len() ==> (#[trigger] armed[i]) is None) ==> at is None
        }),
{
    let armed = server.armed(candidates, waits);
    crate::checkpoint::lemma_earliest(armed, armed.len());
}

/// What repairing the event log came to.
#[derive(Clone, Copy, Debug, PartialEq, Eq, Structural)]
pub enum RepairOutcome {
    Whole,
    /// Cut back to its last consistent prefix.
    Repaired,
    /// Written by a newer version.
    FromFuture,
    Damaged,
}

/// What reading the records came to.
#[derive(Clone, Copy, Debug, PartialEq, Eq, Structural)]
pub enum LoadOutcome {
    /// All of them were read; whether there is a snapshot.
    Loaded { snapshot: bool },
    FromFuture,
    Damaged,
}

/// Where the structure of a recovered Workspace comes from.
#[derive(Clone, Copy, Debug, PartialEq, Eq, Structural)]
pub enum Structure {
    /// The snapshot, with the preferences of the remembered Workspace where it
    /// is remembered.
    Snapshot { preferences: bool },
    /// What is remembered, in fresh Panes.
    Remembered,
    Fresh,
}

/// How a Workspace is brought back.
#[derive(Clone, Copy, Debug, PartialEq, Eq, Structural)]
pub enum WorkspaceRecovery {
    /// The record is a newer version's: leave it alone, and do not start.
    Refuse,
    Start {
        /// The log is to be read anew.
        reopen: bool,
        /// Set the damaged records aside.
        quarantine: bool,
        /// Take up tasks, instructions, runs and files.
        projections: bool,
        /// The snapshot is not wanted: delete it.
        delete_snapshot: bool,
        structure: Structure,
    },
}

/// How a Workspace is brought back: from the snapshot, else from what is
/// remembered of it. Damage never keeps it from starting; only a record of a
/// newer version does.
pub fn recover_workspace(
    repair: RepairOutcome,
    restore: bool,
    load: LoadOutcome,
    remembered: bool,
) -> (recovery: WorkspaceRecovery)
    ensures
        recovery == if repair == RepairOutcome::FromFuture || (restore && load
            == LoadOutcome::FromFuture) {
            WorkspaceRecovery::Refuse
        } else {
            WorkspaceRecovery::Start {
                reopen: repair == RepairOutcome::Repaired,
                quarantine: repair == RepairOutcome::Damaged || (restore && load
                    == LoadOutcome::Damaged),
                projections: restore && load is Loaded,
                delete_snapshot: !restore,
                structure: if restore && load == (LoadOutcome::Loaded { snapshot: true }) {
                    Structure::Snapshot { preferences: remembered }
                } else if remembered {
                    Structure::Remembered
                } else {
                    Structure::Fresh
                },
            }
        },
{
    if repair == RepairOutcome::FromFuture {
        return WorkspaceRecovery::Refuse;
    }
    let damaged = repair == RepairOutcome::Damaged;
    let reopen = repair == RepairOutcome::Repaired;
    let (projections, snapshot, lost) = if restore {
        match load {
            LoadOutcome::FromFuture => {
                return WorkspaceRecovery::Refuse;
            },
            LoadOutcome::Damaged => (false, false, true),
            LoadOutcome::Loaded { snapshot } => (true, snapshot, false),
        }
    } else {
        (false, false, false)
    };
    WorkspaceRecovery::Start {
        reopen,
        quarantine: damaged || lost,
        projections,
        delete_snapshot: !restore,
        structure: if snapshot {
            Structure::Snapshot { preferences: remembered }
        } else if remembered {
            Structure::Remembered
        } else {
            Structure::Fresh
        },
    }
}

} // verus!
