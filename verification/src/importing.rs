//! An import as the server carries it out: the hierarchy, the notes of its
//! Projects, and the file tree.
use crate::hierarchy::{unshown, Win};
use crate::import::{
    found_before, fresh_fault, fresh_import, fresh_owners, import_starts, importable,
    merge_import, merge_owners, merge_tagged, merged_projects, new_windows, spare, staged,
    tab_total, tagged, ImportError, ImportMode, Imported, ImportedProject, ImportedWorkspace,
    StagedTab,
};
use crate::server::{ids_below, Server};
use crate::session::Session;
use crate::types::{PaneId, ProjectId};
use vstd::prelude::*;

verus! {

/// New Tabs with drawn Panes keep every shown id drawn.
proof fn lemma_imported_ids(
    before: Seq<Win>,
    kept: Seq<Win>,
    projects: Seq<ImportedProject>,
    owners: Seq<ProjectId>,
    slots: Seq<StagedTab>,
    panes: Seq<PaneId>,
    next: int,
)
    requires
        ids_below(before, next),
        kept.len() == before.len(),
        forall|i: int| 0 <= i < kept.len() ==> (#[trigger] kept[i]).layout == before[i].layout,
        panes.len() == slots.len(),
        forall|k: int| 0 <= k < panes.len() ==> (#[trigger] panes[k]).0 < next,
    ensures
        ids_below(kept + new_windows(projects, owners, slots, panes, slots.len()), next),
{
    let news = new_windows(projects, owners, slots, panes, slots.len());
    let after = kept + news;
    assert forall|q: PaneId| #[trigger] unshown(after, q) || q.0 < next by {
        if q.0 >= next {
            assert(unshown(before, q));
            assert forall|i: int| 0 <= i < after.len() implies !(#[trigger] after[i]).shows(q) by {
                if i < kept.len() {
                    assert(!before[i].shows(q));
                } else {
                    let k = i - kept.len();
                    let win = news[k];
                    crate::hierarchy::lemma_single(win.project, panes[k], win.name);
                    assert(after[i] == Win::single(win.project, panes[k], win.name));
                    assert(panes[k].0 < next);
                }
            }
        }
    }
}

impl Server {
    /// Carry out an import that was planned. `panes` are the Panes spawned for
    /// the planned Tabs, in order. A refused import changes nothing; a fresh one
    /// shows the files of the first Project.
    pub fn import_workspace(
        &mut self,
        workspace: &ImportedWorkspace,
        panes: &Vec<PaneId>,
        mode: ImportMode,
    ) -> (done: Result<Imported, ImportError>)
        requires
            old(self).wf(),
            mode == ImportMode::Fresh && old(self).session.workspace@.projects.len() == 1
                ==> old(self).session.workspace@.projects[0].id == ProjectId(1),
            importable(workspace.projects@),
            old(self).session.workspace@.next_project_id + workspace.projects@.len() <= u64::MAX,
            panes@.len() == staged(
                workspace.projects@,
                import_starts(old(self).session.workspace@, workspace.projects@, mode),
                workspace.projects@.len(),
            ).len(),
            spare(old(self).session.workspace@.windows, panes@),
            forall|k: int|
                0 <= k < panes@.len() ==> (#[trigger] panes@[k]).0 < old(self).next_pane_id,
        ensures
            final(self).wf(),
            ({
                let s = old(self).session.workspace@;
                let t = final(self).session.workspace@;
                let projects = workspace.projects@;
                let n = projects.len();
                match mode {
                    ImportMode::Fresh => match done {
                        Err(fault) => {
                            &&& fresh_fault(s, projects) == Some(fault)
                            &&& t == s
                            &&& final(self).project_notes@ == old(self).project_notes@
                            &&& final(self).files == old(self).files
                        },
                        Ok(report) => {
                            &&& fresh_fault(s, projects) is None
                            &&& t == fresh_import(s, projects, panes@)
                            &&& final(self).project_notes@ == tagged(
                                old(self).project_notes@,
                                fresh_owners(s.next_project_id, n),
                                projects,
                                n,
                            )
                            &&& final(self).files.project == ProjectId(1)
                            &&& final(self).files.root@ == projects[0].root@
                            &&& report.projects == n
                            &&& report.tabs == tab_total(projects, n)
                            &&& report.merged == 0
                        },
                    },
                    ImportMode::Merge => {
                        &&& done matches Ok(report)
                        &&& t == merge_import(s, projects, panes@)
                        &&& final(self).project_notes@ == merge_tagged(
                            old(self).project_notes@,
                            s,
                            projects,
                            n,
                        )
                        &&& final(self).files == old(self).files
                        &&& report.projects == merged_projects(s, projects, n).len()
                            - s.projects.len()
                        &&& report.tabs == panes@.len()
                        &&& report.merged == found_before(s, projects, n)
                    },
                }
            }),
            *final(self) == (Server {
                session: Session {
                    workspace: final(self).session.workspace,
                    ..old(self).session
                },
                project_notes: final(self).project_notes,
                files: final(self).files,
                ..*old(self)
            }),
    {
        let ghost s = self.session.workspace@;
        let ghost projects = workspace.projects@;
        let ghost n = projects.len();
        let ghost slots = staged(projects, import_starts(s, projects, mode), n);
        match mode {
            ImportMode::Fresh => {
                let done = self.session.workspace.import_fresh_workspace(
                    &mut self.project_notes,
                    workspace,
                    panes,
                );
                if done.is_ok() {
                    let root = workspace.projects[0].root.clone();
                    self.files.reset(ProjectId(1), root);
                    proof {
                        let first = Win { name: projects[0].tabs@[0].name, ..s.windows[0] };
                        lemma_imported_ids(
                            s.windows,
                            seq![first],
                            projects,
                            fresh_owners(s.next_project_id, n),
                            slots,
                            panes@,
                            self.next_pane_id as int,
                        );
                    }
                }
                done
            },
            ImportMode::Merge => {
                let report = self.session.workspace.merge_imported_workspace(
                    &mut self.project_notes,
                    workspace,
                    panes,
                );
                proof {
                    lemma_imported_ids(
                        s.windows,
                        s.windows,
                        projects,
                        merge_owners(s, projects, n),
                        slots,
                        panes@,
                        self.next_pane_id as int,
                    );
                }
                Ok(report)
            },
        }
    }
}

} // verus!
