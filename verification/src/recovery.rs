//! Saving a running server and bringing it back: the hierarchy, the ids that
//! were drawn, and what each Pane starts with.
use crate::detection::{
    AgentPane, AgentStatus, DetectionAuthority, DetectionProvenance, DetectionSource, PaneAgent,
};
use crate::hierarchy::{unshown, Win};
use crate::launch::{native_resume_args, resume_line, AgentLaunchSnap, ProviderRules};
use crate::metadata::{forget_owner, MetadataStore, Note};
use crate::restore::{
    definition_covers, layouts_disjoint, restored_state, restored_windows, revived_tabs,
    snapshot_state, snapshot_windows, RestoredTab, Snapshot, WorkspaceDefinition,
};
use crate::scope::SidebarScope;
use crate::search_path::texts;
use crate::server::{ids_below, Server};
use crate::session::Session;
use crate::snapshot::saved_projects;
use crate::types::PaneId;
use vstd::prelude::*;

verus! {

/// A saved server.
#[derive(Debug)]
pub struct ServerSnapshot {
    pub hierarchy: Snapshot,
    /// The id of the next Pane.
    pub next_pane_id: u64,
}

impl ServerSnapshot {
    /// What a running server saves.
    pub open spec fn sound(self) -> bool {
        &&& self.hierarchy.sound()
        &&& ids_below(self.hierarchy.windows@, self.next_pane_id as int)
    }
}

/// The larger of two ids.
pub open spec fn later(a: u64, b: u64) -> u64 {
    if a >= b {
        a
    } else {
        b
    }
}

impl Server {
    /// What to save of the server.
    pub fn snapshot(&self) -> (saved: ServerSnapshot)
        requires
            self.wf(),
        ensures
            saved.hierarchy.windows@ == self.session.workspace@.windows,
            saved.hierarchy.active_window == self.session.workspace@.active_window,
            saved.hierarchy.projects@ == saved_projects(self.session.workspace@),
            saved.hierarchy.next_project_id == self.session.workspace@.next_project_id,
            saved.next_pane_id == self.next_pane_id,
            saved.sound(),
    {
        let hierarchy = self.session.workspace.snapshot();
        proof {
            let s = self.session.workspace@;
            let projects = hierarchy.projects@;
            assert(projects == saved_projects(s));
            assert forall|i: int, j: int| 0 <= i < j < projects.len() implies (
            #[trigger] projects[i]).id != (#[trigger] projects[j]).id by {
                assert(s.projects[i].id != s.projects[j].id);
            }
            assert forall|i: int| 0 <= i < s.windows.len() implies crate::hierarchy::known(
                projects,
                (#[trigger] s.windows[i]).project,
            ) by {
                assert(crate::hierarchy::known(s.projects, s.windows[i].project));
                let k = choose|k: int|
                    0 <= k < s.projects.len() && (#[trigger] s.projects[k]).id
                        == s.windows[i].project;
                assert(projects[k].id == s.windows[i].project);
            }
            assert(crate::hierarchy::known(s.projects, s.windows[s.active_window].project));
        }
        ServerSnapshot { hierarchy, next_pane_id: self.next_pane_id }
    }

    /// Bring a saved hierarchy back. `live` are the Panes whose process could be
    /// started again, and `fallback` is a fresh Pane, needed where no Tab is
    /// left. No id that was drawn before is drawn again.
    pub fn restore(&mut self, saved: ServerSnapshot, live: &Vec<PaneId>, fallback: Option<PaneId>)
        requires
            forall|i: int|
                0 <= i < saved.hierarchy.projects@.len() ==> (
                #[trigger] saved.hierarchy.projects@[i]).id.0 < u64::MAX,
            snapshot_windows(
                saved.hierarchy.windows@,
                saved.hierarchy.projects@,
                live@,
                fallback,
            ).len() > 0,
        ensures
            final(self).session.workspace@ == snapshot_state(
                old(self).session.workspace@,
                saved.hierarchy.windows@,
                saved.hierarchy.active_window as int,
                saved.hierarchy.projects@,
                saved.hierarchy.next_project_id as int,
                live@,
                fallback,
            ),
            final(self).next_pane_id == later(saved.next_pane_id, old(self).next_pane_id),
            *final(self) == (Server {
                session: Session {
                    workspace: final(self).session.workspace,
                    ..old(self).session
                },
                next_pane_id: final(self).next_pane_id,
                ..*old(self)
            }),
            old(self).wf() && saved.sound() && (fallback matches Some(pane) ==> pane.0 < old(
                self,
            ).next_pane_id) ==> final(self).wf(),
    {
        let ghost windows = saved.hierarchy.windows@;
        let ghost projects = saved.hierarchy.projects@;
        let saved_next: u64 = saved.next_pane_id;
        self.session.workspace.restore(saved.hierarchy, live, fallback);
        if saved_next >= self.next_pane_id {
            self.next_pane_id = saved_next;
        }
        proof {
            if old(self).wf() && saved.sound() && (fallback matches Some(pane) ==> pane.0 < old(
                self,
            ).next_pane_id) {
                lemma_revived_ids(
                    windows,
                    projects,
                    live@,
                    fallback,
                    self.next_pane_id as int,
                );
            }
        }
    }

    /// Bring a remembered Workspace back with its preferences. `tabs` are the
    /// Tabs whose Panes the host could spawn, in order. Whether anything could be
    /// brought back.
    pub fn restore_workspace_definition(
        &mut self,
        definition: &WorkspaceDefinition,
        tabs: Vec<RestoredTab>,
    ) -> (restored: bool)
        requires
            layouts_disjoint(tabs@),
            definition_covers(definition.projects@, tabs@),
        ensures
            restored == (tabs@.len() > 0),
            final(self).session.workspace@ == restored_state(
                old(self).session.workspace@,
                *definition,
                tabs@,
            ),
            *final(self) == (Server {
                session: Session {
                    workspace: final(self).session.workspace,
                    ..old(self).session
                },
                agent_scope: if definition.agent_scope_workspace {
                    SidebarScope::Workspace
                } else {
                    SidebarScope::Project
                },
                server_scope: if definition.server_scope_workspace {
                    SidebarScope::Workspace
                } else {
                    SidebarScope::Project
                },
                ..*old(self)
            }),
            restored && old(self).wf() && ids_below(
                restored_windows(tabs@),
                old(self).next_pane_id as int,
            ) ==> final(self).wf(),
    {
        self.restore_workspace_preferences(
            definition.agent_scope_workspace,
            definition.server_scope_workspace,
        );
        self.session.workspace.restore_workspace_definition(definition, tabs)
    }
}

/// A restored snapshot shows saved Panes only, or the fallback.
proof fn lemma_revived_ids(
    saved: Seq<Win>,
    projects: Seq<crate::hierarchy::Project>,
    live: Seq<PaneId>,
    fallback: Option<PaneId>,
    next: int,
)
    requires
        crate::hierarchy::panes_owned_once(saved),
        ids_below(saved, next),
        fallback matches Some(pane) ==> pane.0 < next,
    ensures
        ids_below(snapshot_windows(saved, projects, live, fallback), next),
{
    let shown = snapshot_windows(saved, projects, live, fallback);
    let left = revived_tabs(saved, live, saved.len());
    lemma_revived_shows(saved, live, saved.len());
    assert forall|q: PaneId| #[trigger] unshown(shown, q) || q.0 < next by {
        if !(q.0 < next) {
            assert(unshown(saved, q));
            if shown != left {
                let pane = fallback->0;
                crate::hierarchy::lemma_single(shown[0].project, pane, None);
            }
        }
    }
}

proof fn lemma_revived_shows(saved: Seq<Win>, live: Seq<PaneId>, n: nat)
    requires
        crate::hierarchy::panes_owned_once(saved),
        n <= saved.len(),
    ensures
        forall|q: PaneId| unshown(saved, q) ==> #[trigger] unshown(revived_tabs(saved, live, n), q),
    decreases n,
{
    if n > 0 {
        lemma_revived_shows(saved, live, (n - 1) as nat);
        let rest = revived_tabs(saved, live, (n - 1) as nat);
        let out = revived_tabs(saved, live, n);
        assert(saved[n - 1].wf());
        crate::restore::lemma_revived(saved[n - 1], live);
        assert forall|q: PaneId| unshown(saved, q) implies #[trigger] unshown(out, q) by {
            assert(unshown(rest, q));
            assert forall|k: int| 0 <= k < out.len() implies !(#[trigger] out[k]).shows(q) by {
                assert(!saved[n - 1].shows(q));
                if k < rest.len() {
                    assert(out[k] == rest[k]);
                }
            }
        }
    }
}

/// An id that is still to be drawn is shown nowhere, so that no Pane gets the id
/// of another one.
pub proof fn lemma_next_ids_fresh(server: Server, pane: PaneId)
    requires
        server.wf(),
        pane.0 >= server.next_pane_id,
    ensures
        unshown(server.session.workspace@.windows, pane),
{
}

/// What a restored Pane runs. An agent that was active is resumed as its
/// provider resumes it, and gets a fresh shell where the provider does not: the
/// old arguments would start another session under a stale name.
pub open spec fn restored_args(
    profile: Option<AgentLaunchSnap>,
    saved: Seq<Seq<char>>,
    program: Seq<char>,
    providers: Seq<ProviderRules>,
) -> Seq<Seq<char>> {
    match profile {
        Some(launch) => match resume_line(
            program,
            launch.provider@,
            texts(launch.resume_command@),
            providers,
        ) {
            Some(line) => seq!["-c"@, line],
            None => Seq::empty(),
        },
        None => saved,
    }
}

fn copy_words(words: &Vec<String>) -> (out: Vec<String>)
    ensures
        texts(out@) == texts(words@),
{
    let mut out: Vec<String> = Vec::new();
    let mut i: usize = 0;
    while i < words.len()
        invariant
            i <= words@.len(),
            out@.len() == i,
            forall|k: int| 0 <= k < i ==> (#[trigger] out@[k])@ == words@[k]@,
        decreases words@.len() - i,
    {
        out.push(words[i].clone());
        i += 1;
    }
    assert(texts(out@) =~= texts(words@));
    out
}

/// Decide what a restored Pane runs.
pub fn restored_launch(
    profile: &Option<AgentLaunchSnap>,
    saved: &Vec<String>,
    program: &str,
    providers: &Vec<ProviderRules>,
) -> (args: Vec<String>)
    ensures
        texts(args@) == restored_args(*profile, texts(saved@), program@, providers@),
{
    match profile {
        Some(launch) => match native_resume_args(program, launch, providers) {
            Some(args) => args,
            None => {
                let none: Vec<String> = Vec::new();
                assert(texts(none@) =~= Seq::<Seq<char>>::empty());
                none
            },
        },
        None => copy_words(saved),
    }
}

/// The evidence of an agent that was resumed.
pub open spec fn resumed_evidence() -> Seq<char> {
    "restored through provider-owned native resume"@
}

/// The agent of a Pane that was resumed.
pub open spec fn resumed_agent(
    agent: PaneAgent,
    launch: AgentLaunchSnap,
    foreground: Option<i32>,
    now: u64,
    timestamp_ms: u64,
) -> bool {
    &&& agent.id@ == launch.provider@
    &&& agent.status == AgentStatus::Starting
    &&& agent.authority == DetectionAuthority::Process
    &&& agent.evidence@ == resumed_evidence()
    &&& agent.provenance == DetectionProvenance::plain(
        DetectionSource::Launch,
        timestamp_ms,
        foreground,
    )
    &&& agent.foreground_pid == foreground
    &&& agent.started_at == now
    &&& agent.session_id == launch.session_id
    &&& match agent.resume_command {
        Some(words) => words == launch.resume_command && words@.len() > 0,
        None => launch.resume_command@.len() == 0,
    }
}

impl AgentPane {
    /// A Pane was restored with these arguments. Its agent is bound again where
    /// it was resumed.
    pub fn rebind_restored(
        &mut self,
        profile: Option<AgentLaunchSnap>,
        args: &Vec<String>,
        foreground: Option<i32>,
        now: u64,
        timestamp_ms: u64,
    ) -> (bound: bool)
        ensures
            bound == (profile is Some && args@.len() > 0),
            match profile {
                Some(launch) if args@.len() > 0 => {
                    &&& *final(self) == (AgentPane { agent: final(self).agent, ..*old(self) })
                    &&& final(self).agent matches Some(agent)
                    &&& resumed_agent(agent, launch, foreground, now, timestamp_ms)
                },
                _ => *final(self) == *old(self),
            },
    {
        match profile {
            Some(launch) => {
                if args.len() == 0 {
                    return false;
                }
                self.bind_agent(launch.provider.as_str(), foreground, now, timestamp_ms);
                if let Some(mut agent) = self.agent.take() {
                    agent.session_id = launch.session_id;
                    agent.resume_command = if launch.resume_command.len() > 0 {
                        Some(launch.resume_command)
                    } else {
                        None
                    };
                    agent.evidence = "restored through provider-owned native resume".to_owned();
                    self.agent = Some(agent);
                }
                true
            },
            None => false,
        }
    }
}

/// A note as it is saved. When it expires is not.
#[derive(Debug)]
pub struct SavedNote {
    pub key: String,
    pub value: String,
}

/// The notes once the first `n` saved ones came back, to stay.
pub open spec fn with_saved(
    notes: Map<(u64, Seq<char>), Note>,
    owner: u64,
    saved: Seq<SavedNote>,
    n: nat,
) -> Map<(u64, Seq<char>), Note>
    decreases n,
{
    if n == 0 {
        notes
    } else {
        with_saved(notes, owner, saved, (n - 1) as nat).insert(
            (owner, saved[n - 1].key@),
            (Note { value: saved[n - 1].value@, expires: None }),
        )
    }
}

impl MetadataStore {
    /// Replace an owner's notes by saved ones, which do not expire.
    pub fn restore_notes(&mut self, owner: u64, saved: &Vec<SavedNote>)
        requires
            old(self).wf(),
        ensures
            final(self).wf(),
            final(self)@ == with_saved(
                forget_owner(old(self)@, owner),
                owner,
                saved@,
                saved@.len(),
            ),
    {
        self.remove_owner(owner);
        let ghost base = self@;
        let mut i: usize = 0;
        while i < saved.len()
            invariant
                i <= saved@.len(),
                self.wf(),
                self@ == with_saved(base, owner, saved@, i as nat),
            decreases saved@.len() - i,
        {
            self.insert(owner, saved[i].key.clone(), saved[i].value.clone(), None);
            i += 1;
        }
    }
}

/// No note that comes back expires.
pub proof fn lemma_saved_notes_stay(
    notes: Map<(u64, Seq<char>), Note>,
    owner: u64,
    saved: Seq<SavedNote>,
    n: nat,
    key: Seq<char>,
)
    requires
        n <= saved.len(),
        with_saved(forget_owner(notes, owner), owner, saved, n).dom().contains((owner, key)),
    ensures
        with_saved(forget_owner(notes, owner), owner, saved, n)[(owner, key)].expires is None,
    decreases n,
{
    if n > 0 && saved[n - 1].key@ != key {
        lemma_saved_notes_stay(notes, owner, saved, (n - 1) as nat, key);
    }
}

} // verus!
