//! Listings of what is recorded: detections, instructions, runs and the files
//! that runs produced.
use crate::artifact::{ArtifactId, ArtifactStatus};
use crate::detection::{
    AgentPane, AgentStatus, DetectionAuthority, DetectionProvenance, DetectionSource,
};
use crate::hierarchy::{window_of, Workspace, WorkspaceState};
use crate::instruction::{Instruction, InstructionAuthor};
use crate::listings::{ordinal, PaneInfo, PaneLine};
use crate::notify::place_of;
use crate::types::{PaneId, ProjectId};
use vstd::prelude::*;

verus! {

/// A Pane with what is known of its agent.
#[derive(Debug)]
pub struct KnownPane {
    pub id: PaneId,
    pub state: AgentPane,
}

/// What a listing says of the agent in one Pane.
#[derive(Debug)]
pub struct AgentDetectionInfo {
    pub pane: PaneId,
    pub project: ProjectId,
    pub tab: u32,
    pub agent: Option<String>,
    pub status: AgentStatus,
    pub authority: DetectionAuthority,
    pub evidence: String,
    pub foreground_pid: Option<i32>,
    pub provenance: DetectionProvenance,
}

/// The same, by the texts' characters.
pub struct DetectionLine {
    pub pane: PaneId,
    pub project: ProjectId,
    pub tab: u32,
    pub agent: Option<String>,
    pub status: AgentStatus,
    pub authority: DetectionAuthority,
    pub evidence: Seq<char>,
    pub foreground_pid: Option<i32>,
    pub provenance: DetectionProvenance,
}

/// What an entry says.
pub open spec fn detection_line(info: AgentDetectionInfo) -> DetectionLine {
    DetectionLine {
        pane: info.pane,
        project: info.project,
        tab: info.tab,
        agent: info.agent,
        status: info.status,
        authority: info.authority,
        evidence: info.evidence@,
        foreground_pid: info.foreground_pid,
        provenance: info.provenance,
    }
}

/// What a listing says.
pub open spec fn detection_lines(list: Seq<AgentDetectionInfo>) -> Seq<DetectionLine> {
    Seq::new(list.len(), |i: int| detection_line(list[i]))
}

/// The first entry for a Pane, from position `i` on.
pub open spec fn known_at(panes: Seq<KnownPane>, pane: PaneId, i: int) -> Option<int>
    decreases panes.len() - i,
{
    if i < 0 || i >= panes.len() {
        None
    } else if panes[i].id == pane {
        Some(i)
    } else {
        known_at(panes, pane, i + 1)
    }
}

/// What is said of a Pane: its agent, else the last one that it had, else that
/// there is none.
pub open spec fn detection_of(line: PaneLine, state: AgentPane) -> DetectionLine {
    match (state.agent, state.last_detection) {
        (Some(active), _) => DetectionLine {
            pane: line.id,
            project: line.project,
            tab: line.tab,
            agent: Some(active.id),
            status: active.status,
            authority: active.authority,
            evidence: active.evidence@,
            foreground_pid: active.foreground_pid,
            provenance: active.provenance,
        },
        (None, Some(last)) => DetectionLine {
            pane: line.id,
            project: line.project,
            tab: line.tab,
            agent: Some(last.agent),
            status: last.status,
            authority: last.authority,
            evidence: last.evidence.words(),
            foreground_pid: last.foreground_pid,
            provenance: last.provenance,
        },
        (None, None) => DetectionLine {
            pane: line.id,
            project: line.project,
            tab: line.tab,
            agent: None,
            status: AgentStatus::Unknown,
            authority: DetectionAuthority::Grid,
            evidence: "no agent evidence observed"@,
            foreground_pid: state.foreground_pid,
            provenance: DetectionProvenance::plain(DetectionSource::Absent, 0, state.foreground_pid),
        },
    }
}

/// What is said of the Panes among the first `n` lines: of those that are
/// wanted and known.
pub open spec fn detections(
    lines: Seq<PaneLine>,
    panes: Seq<KnownPane>,
    wanted: Option<PaneId>,
    n: nat,
) -> Seq<DetectionLine>
    decreases n,
{
    if n == 0 {
        Seq::empty()
    } else {
        let rest = detections(lines, panes, wanted, (n - 1) as nat);
        let line = lines[n - 1];
        if wanted matches Some(id) && id != line.id {
            rest
        } else {
            match known_at(panes, line.id, 0) {
                Some(i) => rest.push(detection_of(line, panes[i].state)),
                None => rest,
            }
        }
    }
}

/// The entries stand in the order of their Panes.
pub open spec fn by_pane(list: Seq<DetectionLine>) -> bool {
    forall|i: int, j: int|
        0 <= i < j < list.len() ==> (#[trigger] list[i]).pane.0 <= (#[trigger] list[j]).pane.0
}

fn find_known(panes: &Vec<KnownPane>, pane: PaneId) -> (found: Option<usize>)
    ensures
        crate::hierarchy::index_of(found) == known_at(panes@, pane, 0),
        found matches Some(i) ==> i < panes@.len(),
{
    let mut i: usize = 0;
    while i < panes.len()
        invariant
            i <= panes@.len(),
            known_at(panes@, pane, 0) == known_at(panes@, pane, i as int),
        decreases panes@.len() - i,
    {
        if panes[i].id == pane {
            return Some(i);
        }
        i += 1;
    }
    None
}

fn describe(info: &PaneInfo, state: &AgentPane) -> (out: AgentDetectionInfo)
    ensures
        detection_line(out) == detection_of(crate::listings::pane_line(*info), *state),
{
    match (&state.agent, &state.last_detection) {
        (Some(active), _) => AgentDetectionInfo {
            pane: info.id,
            project: info.project,
            tab: info.tab,
            agent: Some(active.id.clone()),
            status: active.status,
            authority: active.authority,
            evidence: active.evidence.clone(),
            foreground_pid: active.foreground_pid,
            provenance: active.provenance.copy(),
        },
        (None, Some(last)) => AgentDetectionInfo {
            pane: info.id,
            project: info.project,
            tab: info.tab,
            agent: Some(last.agent.clone()),
            status: last.status,
            authority: last.authority,
            evidence: last.evidence.text(),
            foreground_pid: last.foreground_pid,
            provenance: last.provenance.copy(),
        },
        (None, None) => AgentDetectionInfo {
            pane: info.id,
            project: info.project,
            tab: info.tab,
            agent: None,
            status: AgentStatus::Unknown,
            authority: DetectionAuthority::Grid,
            evidence: "no agent evidence observed".to_owned(),
            foreground_pid: state.foreground_pid,
            provenance: DetectionProvenance::direct(DetectionSource::Absent, 0, state.foreground_pid),
        },
    }
}

fn insert_by_pane(list: &mut Vec<AgentDetectionInfo>, one: AgentDetectionInfo)
    requires
        by_pane(detection_lines(old(list)@)),
    ensures
        by_pane(detection_lines(final(list)@)),
        detection_lines(final(list)@).to_multiset() == detection_lines(
            old(list)@,
        ).to_multiset().insert(detection_line(one)),
{
    let ghost before = detection_lines(list@);
    let ghost line = detection_line(one);
    let mut k: usize = 0;
    while k < list.len() && list[k].pane.0 <= one.pane.0
        invariant
            k <= list@.len(),
            list@ == old(list)@,
            before == detection_lines(list@),
            forall|a: int| 0 <= a < k ==> (#[trigger] before[a]).pane.0 <= one.pane.0,
        decreases list@.len() - k,
    {
        assert(before[k as int] == detection_line(list@[k as int]));
        k += 1;
    }
    proof {
        if k < list@.len() {
            assert(before[k as int] == detection_line(list@[k as int]));
        }
    }
    list.insert(k, one);
    proof {
        broadcast use vstd::seq_lib::group_to_multiset_ensures;

        let after = detection_lines(list@);
        assert(after =~= before.insert(k as int, line));
        assert(after.to_multiset() =~= before.to_multiset().insert(line));
        assert forall|i: int, j: int| 0 <= i < j < after.len() implies (#[trigger] after[i]).pane.0
            <= (#[trigger] after[j]).pane.0 by {
            if j < k {
                assert(after[i] == before[i] && after[j] == before[j]);
            } else if j == k {
                assert(after[i] == before[i]);
            } else {
                assert(after[j] == before[j - 1]);
                if i < k {
                    assert(after[i] == before[i]);
                } else if i == k {
                    if j - 1 > k {
                        assert(before[k as int].pane.0 <= before[j - 1].pane.0);
                    }
                } else {
                    assert(after[i] == before[i - 1]);
                }
            }
        }
    }
}

impl Workspace {
    /// List what is known of the agents in all Panes, or in one, by Pane.
    pub fn detection_snapshot(&self, panes: &Vec<KnownPane>, wanted: Option<PaneId>) -> (list: Vec<
        AgentDetectionInfo,
    >)
        ensures
            by_pane(detection_lines(list@)),
            ({
                let lines = self@.all_lines(self@.projects.len());
                detection_lines(list@).to_multiset() == detections(
                    lines,
                    panes@,
                    wanted,
                    lines.len(),
                ).to_multiset()
            }),
    {
        broadcast use vstd::seq_lib::group_to_multiset_ensures;

        let infos = self.pane_snapshot();
        let ghost lines = self@.all_lines(self@.projects.len());
        let mut list: Vec<AgentDetectionInfo> = Vec::new();
        let mut i: usize = 0;
        assert(detection_lines(list@) =~= Seq::<DetectionLine>::empty());
        assert(infos@.len() == lines.len());
        while i < infos.len()
            invariant
                i <= infos@.len(),
                lines == crate::listings::pane_lines(infos@),
                infos@.len() == lines.len(),
                by_pane(detection_lines(list@)),
                detection_lines(list@).to_multiset() == detections(
                    lines,
                    panes@,
                    wanted,
                    i as nat,
                ).to_multiset(),
            decreases infos@.len() - i,
        {
            let id = infos[i].id;
            assert(lines[i as int] == crate::listings::pane_line(infos@[i as int]));
            let ghost rest = detections(lines, panes@, wanted, i as nat);
            let other = match wanted {
                Some(w) => w != id,
                None => false,
            };
            if !other {
                match find_known(panes, id) {
                    Some(k) => {
                        let one = describe(&infos[i], &panes[k].state);
                        let ghost line = detection_line(one);
                        insert_by_pane(&mut list, one);
                        proof {
                            broadcast use vstd::seq_lib::group_to_multiset_ensures;

                            assert(rest.push(line).to_multiset() =~= rest.to_multiset().insert(
                                line,
                            ));
                        }
                    },
                    None => {},
                }
            }
            i += 1;
        }
        list
    }
}

/// One instruction of a listing.
#[derive(Debug)]
pub struct InstructionEntry {
    pub id: u64,
    pub pane: PaneId,
    pub invocation: i32,
    pub author: InstructionAuthor,
    pub created_sequence: u64,
    pub text: String,
    pub agent: Option<String>,
    pub project: ProjectId,
    pub project_name: String,
    pub tab: u32,
}

/// The agent in a Pane, where one is bound.
pub open spec fn agent_in(panes: Seq<KnownPane>, pane: PaneId) -> Option<String> {
    match known_at(panes, pane, 0) {
        Some(i) => match panes[i].state.agent {
            Some(agent) => Some(agent.id),
            None => None,
        },
        None => None,
    }
}

impl WorkspaceState {
    /// The entry of an instruction; none where no Tab shows its Pane, or its
    /// Project is gone.
    pub open spec fn instruction_entry(self, item: Instruction, panes: Seq<KnownPane>) -> Option<
        InstructionEntry,
    > {
        match window_of(self.windows, item.pane) {
            Some(w) => match crate::hierarchy::project_at(self.projects, self.windows[w].project) {
                Some(p) => Some(
                    InstructionEntry {
                        id: item.id,
                        pane: item.pane,
                        invocation: item.invocation,
                        author: item.author,
                        created_sequence: item.created_sequence,
                        text: item.text,
                        agent: agent_in(panes, item.pane),
                        project: self.projects[p].id,
                        project_name: self.projects[p].name,
                        tab: crate::observatory::tab_number(self, w),
                    },
                ),
                None => None,
            },
            None => None,
        }
    }

    /// The entries of the first `n` instructions.
    pub open spec fn instruction_entries(
        self,
        items: Seq<Instruction>,
        panes: Seq<KnownPane>,
        n: nat,
    ) -> Seq<InstructionEntry>
        decreases n,
    {
        if n == 0 {
            Seq::empty()
        } else {
            let rest = self.instruction_entries(items, panes, (n - 1) as nat);
            match self.instruction_entry(items[n - 1], panes) {
                Some(entry) => rest.push(entry),
                None => rest,
            }
        }
    }
}

impl Workspace {
    /// List the instructions that wait, with where their agents are.
    pub fn instruction_snapshot(&self, items: &Vec<Instruction>, panes: &Vec<KnownPane>) -> (list:
        Vec<InstructionEntry>)
        ensures
            list@ == self@.instruction_entries(items@, panes@, items@.len()),
    {
        let mut list: Vec<InstructionEntry> = Vec::new();
        let mut i: usize = 0;
        while i < items.len()
            invariant
                i <= items@.len(),
                list@ == self@.instruction_entries(items@, panes@, i as nat),
            decreases items@.len() - i,
        {
            let pane = items[i].pane;
            let agent = match find_known(panes, pane) {
                Some(k) => match &panes[k].state.agent {
                    Some(agent) => Some(agent.id.clone()),
                    None => None,
                },
                None => None,
            };
            assert(agent == agent_in(panes@, pane));
            match self.window_of(pane) {
                Some(w) => {
                    proof {
                        crate::tabs::lemma_window_of_found(self@.windows, pane);
                    }
                    let project = self.windows[w].project;
                    match self.project_position(project) {
                        Some(p) => {
                            proof {
                                crate::hierarchy::lemma_project_at_found(self@.projects, project);
                            }
                            let tabs = self.project_window_indices(project);
                            let tab: u32 = ordinal(place_of(&tabs, w));
                            assert(tab == crate::observatory::tab_number(self@, w as int));
                            list.push(
                                InstructionEntry {
                                    id: items[i].id,
                                    pane,
                                    invocation: items[i].invocation,
                                    author: items[i].author,
                                    created_sequence: items[i].created_sequence,
                                    text: items[i].text.clone(),
                                    agent,
                                    project: self.projects[p].id,
                                    project_name: self.projects[p].name.clone(),
                                    tab,
                                },
                            );
                        },
                        None => {},
                    }
                },
                None => {},
            }
            i += 1;
        }
        list
    }
}

/// How a recorded run stands.
#[derive(Clone, Copy, Debug, PartialEq, Eq, Structural)]
pub enum RunStatus {
    Active,
    Done,
    Failed,
    Canceled,
}

/// A recorded run, as far as listings choose by it.
#[derive(Clone, Copy, Debug, PartialEq, Eq, Structural)]
pub struct RunRecord {
    pub id: u64,
    pub project: ProjectId,
    pub status: RunStatus,
}

/// A listing of a Project, or of all, shows this run.
pub open spec fn run_listed(run: RunRecord, project: Option<ProjectId>, active_only: bool) -> bool {
    (project matches Some(id) ==> run.project == id) && (active_only ==> run.status
        == RunStatus::Active)
}

/// The runs that a listing shows, in the order of the record.
pub fn run_snapshot(runs: &Vec<RunRecord>, project: Option<ProjectId>, active_only: bool) -> (list:
    Vec<RunRecord>)
    ensures
        list@ == runs@.filter(|run: RunRecord| run_listed(run, project, active_only)),
{
    let ghost keep = |run: RunRecord| run_listed(run, project, active_only);
    let mut list: Vec<RunRecord> = Vec::new();
    let mut i: usize = 0;
    proof {
        crate::lists::lemma_filter_none(runs@, keep);
    }
    while i < runs.len()
        invariant
            i <= runs@.len(),
            keep == (|run: RunRecord| run_listed(run, project, active_only)),
            list@ == runs@.take(i as int).filter(keep),
        decreases runs@.len() - i,
    {
        proof {
            crate::lists::lemma_filter_step(runs@, i as int, keep);
        }
        let here = match project {
            Some(id) => runs[i].project == id,
            None => true,
        };
        if here && (!active_only || runs[i].status == RunStatus::Active) {
            list.push(runs[i]);
        }
        i += 1;
    }
    assert(runs@.take(i as int) =~= runs@);
    list
}

/// A recorded artifact, as far as listings choose by it.
#[derive(Debug)]
pub struct LedgerEntry {
    pub id: ArtifactId,
    pub project: ProjectId,
    pub run: u64,
    pub path: String,
    pub status: ArtifactStatus,
}

/// A listing shows this artifact: of a Project, of a run, or of all; replaced
/// ones only where they are asked for.
pub open spec fn artifact_listed(
    entry: LedgerEntry,
    project: Option<ProjectId>,
    run: Option<u64>,
    include_superseded: bool,
) -> bool {
    &&& project matches Some(id) ==> entry.project == id
    &&& run matches Some(id) ==> entry.run == id
    &&& include_superseded || entry.status != ArtifactStatus::Superseded
}

/// The ids of the artifacts that a listing shows, among the first `n`.
pub open spec fn listed_artifacts(
    ledger: Seq<LedgerEntry>,
    project: Option<ProjectId>,
    run: Option<u64>,
    include_superseded: bool,
    n: nat,
) -> Seq<ArtifactId>
    decreases n,
{
    if n == 0 {
        Seq::empty()
    } else {
        let rest = listed_artifacts(ledger, project, run, include_superseded, (n - 1) as nat);
        if artifact_listed(ledger[n - 1], project, run, include_superseded) {
            rest.push(ledger[n - 1].id)
        } else {
            rest
        }
    }
}

/// The artifacts that a listing shows, in the order of the ledger.
pub fn artifact_snapshot(
    ledger: &Vec<LedgerEntry>,
    project: Option<ProjectId>,
    run: Option<u64>,
    include_superseded: bool,
) -> (list: Vec<ArtifactId>)
    ensures
        list@ == listed_artifacts(ledger@, project, run, include_superseded, ledger@.len()),
{
    let mut list: Vec<ArtifactId> = Vec::new();
    let mut i: usize = 0;
    while i < ledger.len()
        invariant
            i <= ledger@.len(),
            list@ == listed_artifacts(ledger@, project, run, include_superseded, i as nat),
        decreases ledger@.len() - i,
    {
        let here = match project {
            Some(id) => ledger[i].project == id,
            None => true,
        };
        let produced = match run {
            Some(id) => ledger[i].run == id,
            None => true,
        };
        if here && produced && (include_superseded || ledger[i].status
            != ArtifactStatus::Superseded) {
            list.push(ledger[i].id);
        }
        i += 1;
    }
    list
}

/// A file that is watched for an artifact.
#[derive(Debug)]
pub struct ArtifactWatchEntry {
    pub artifact: ArtifactId,
    pub path: String,
}

/// The files that are watched in a Project.
#[derive(Debug)]
pub struct ArtifactWatchProject {
    pub project: ProjectId,
    pub root: String,
    pub artifacts: Vec<ArtifactWatchEntry>,
}

/// The files to watch for the artifacts of a Project, among the first `n`:
/// those that were not replaced.
pub open spec fn watched_files(ledger: Seq<LedgerEntry>, project: ProjectId, n: nat) -> Seq<
    ArtifactWatchEntry,
>
    decreases n,
{
    if n == 0 {
        Seq::empty()
    } else {
        let rest = watched_files(ledger, project, (n - 1) as nat);
        let entry = ledger[n - 1];
        if entry.project == project && entry.status != ArtifactStatus::Superseded {
            rest.push(ArtifactWatchEntry { artifact: entry.id, path: entry.path })
        } else {
            rest
        }
    }
}

/// What is watched, Project by Project.
pub open spec fn watch_sets(list: Seq<ArtifactWatchProject>) -> Seq<
    (ProjectId, String, Seq<ArtifactWatchEntry>),
> {
    Seq::new(list.len(), |i: int| (list[i].project, list[i].root, list[i].artifacts@))
}

impl WorkspaceState {
    /// What is watched in the first `n` Projects; a Project with nothing to
    /// watch is left out.
    pub open spec fn artifact_watches(self, ledger: Seq<LedgerEntry>, n: nat) -> Seq<
        (ProjectId, String, Seq<ArtifactWatchEntry>),
    >
        decreases n,
    {
        if n == 0 {
            Seq::empty()
        } else {
            let rest = self.artifact_watches(ledger, (n - 1) as nat);
            let files = watched_files(ledger, self.projects[n - 1].id, ledger.len());
            if files.len() > 0 {
                rest.push((self.projects[n - 1].id, self.projects[n - 1].root, files))
            } else {
                rest
            }
        }
    }
}

fn list_watched_files(ledger: &Vec<LedgerEntry>, project: ProjectId) -> (files: Vec<
    ArtifactWatchEntry,
>)
    ensures
        files@ == watched_files(ledger@, project, ledger@.len()),
{
    let mut files: Vec<ArtifactWatchEntry> = Vec::new();
    let mut i: usize = 0;
    while i < ledger.len()
        invariant
            i <= ledger@.len(),
            files@ == watched_files(ledger@, project, i as nat),
        decreases ledger@.len() - i,
    {
        if ledger[i].project == project && ledger[i].status != ArtifactStatus::Superseded {
            files.push(
                ArtifactWatchEntry { artifact: ledger[i].id, path: ledger[i].path.clone() },
            );
        }
        i += 1;
    }
    files
}

impl Workspace {
    /// The files that are to be watched for the artifacts of all Projects.
    pub fn sync_artifact_watches(&self, ledger: &Vec<LedgerEntry>) -> (list: Vec<
        ArtifactWatchProject,
    >)
        ensures
            watch_sets(list@) == self@.artifact_watches(ledger@, self@.projects.len()),
    {
        let mut list: Vec<ArtifactWatchProject> = Vec::new();
        let mut p: usize = 0;
        assert(watch_sets(list@) =~= self@.artifact_watches(ledger@, 0));
        while p < self.projects.len()
            invariant
                p <= self@.projects.len(),
                watch_sets(list@) == self@.artifact_watches(ledger@, p as nat),
            decreases self@.projects.len() - p,
        {
            let artifacts = list_watched_files(ledger, self.projects[p].id);
            if artifacts.len() > 0 {
                let ghost before = list@;
                let one = ArtifactWatchProject {
                    project: self.projects[p].id,
                    root: self.projects[p].root.clone(),
                    artifacts,
                };
                let ghost said = (one.project, one.root, one.artifacts@);
                list.push(one);
                assert(watch_sets(list@) =~= watch_sets(before).push(said));
            }
            p += 1;
        }
        list
    }
}

} // verus!
