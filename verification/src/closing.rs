//! Closing a Pane: everything that the server keeps about it goes with it.
use crate::broadcast::direct_tokens;
use crate::dev_servers::of_other;
use crate::hierarchy::unshown;
use crate::instruction::{elsewhere, ids_without, InstructionQueue};
use crate::metadata::forget_owner;
use crate::notify::of_other_pane;
use crate::reaper::TERM_GRACE_MS;
use crate::retiring::{has_process, with_retiring};
use crate::run_flow::{
    activation_not_among, canceled, delivered_elsewhere, lemma_cancel_exact, not_among, spared,
    CanceledRuns,
};
use crate::server::Server;
use crate::session::Toast;
use crate::sources::{watch_of, PaneSource, ProcessWatch};
use crate::tabs::ClosedPane;
use crate::types::{PaneId, Token};
use vstd::prelude::*;

verus! {

/// What a closed Pane leaves to do.
#[derive(Debug)]
pub struct PaneClosing {
    /// What it did to the hierarchy.
    pub done: ClosedPane,
    /// The clients that showed the Pane alone, and are told that it ended.
    pub tell: Vec<Token>,
    /// The runs that ended with it.
    pub ended: CanceledRuns,
    /// The instructions that were meant for it.
    pub instructions: Vec<u64>,
    pub servers_changed: bool,
    /// The watch on its process.
    pub watch: Option<ProcessWatch>,
    /// The file tree is to show another Project.
    pub sync_files: bool,
    /// Its process is retiring: it is asked to end, and watched until it did.
    pub retired: bool,
}

/// What was dropped with a Pane.
#[derive(Debug)]
pub struct Forgotten {
    pub ended: CanceledRuns,
    pub instructions: Vec<u64>,
    pub servers_changed: bool,
    pub watch: Option<ProcessWatch>,
    pub retired: bool,
}

/// A toast, unless it is about the Pane.
pub open spec fn toast_elsewhere(toast: Option<Toast>, pane: PaneId) -> Option<Toast> {
    match toast {
        Some(t) if t.pane == pane => None,
        _ => toast,
    }
}

impl Server {
    /// The server keeps nothing about a Pane.
    pub open spec fn knows_nothing_of(self, pane: PaneId) -> bool {
        &&& unshown(self.session.workspace@.windows, pane)
        &&& forall|i: int|
            0 <= i < self.runtime.runs.workflows@.len()
                ==> !(#[trigger] self.runtime.runs.workflows@[i]).involves(pane)
        &&& forall|i: int|
            0 <= i < self.runtime.runs.relays@.len()
                ==> !(#[trigger] self.runtime.runs.relays@[i]).involves(pane)
        &&& forall|i: int|
            0 <= i < self.runtime.runs.deliveries@.len()
                ==> (#[trigger] self.runtime.runs.deliveries@[i]).pane != pane
        &&& forall|i: int|
            0 <= i < self.runtime.servers.list@.len()
                ==> (#[trigger] self.runtime.servers.list@[i]).pane != pane
        &&& forall|i: int|
            0 <= i < self.instructions.items@.len()
                ==> (#[trigger] self.instructions.items@[i]).pane != pane
        &&& forall|i: int|
            0 <= i < self.notifications.pending@.len()
                ==> (#[trigger] self.notifications.pending@[i]).pane != pane
        &&& self.toast matches Some(t) ==> t.pane != pane
        &&& forall|key: Seq<char>| !#[trigger] self.pane_notes@.dom().contains((pane.0, key))
        &&& forall|i: int|
            0 <= i < self.sources.panes@.len() ==> (#[trigger] self.sources.panes@[i]).pane != pane
    }

    /// `after` is the server once everything was dropped that was queued or
    /// noted for a Pane, and its process, where it has one, began to retire.
    pub open spec fn forgot(
        self,
        after: Server,
        pane: PaneId,
        now: u64,
        dropped: Forgotten,
    ) -> bool {
        &&& dropped.retired == has_process(self.sources.panes@, pane)
        &&& after.retiring_ptys@ == with_retiring(
            self.retiring_ptys@,
            self.sources.panes@,
            pane,
            now,
        )
        &&& dropped.ended.workflows@ == canceled(self.runtime.runs.workflows@, pane, 0)
        &&& dropped.ended.relays@ == canceled(self.runtime.runs.relays@, pane, 0)
        &&& dropped.instructions@ == ids_without(
            self.instructions.items@,
            elsewhere(pane),
            self.instructions.items@.len(),
        )
        &&& dropped.servers_changed == (after.runtime.servers.list@.len()
            != self.runtime.servers.list@.len())
        &&& dropped.watch == match watch_of(self.sources.watches@, pane, 0) {
            Some(i) => Some(self.sources.watches@[i]),
            None => None,
        }
        &&& after.runtime.runs.token_state == self.runtime.runs.token_state
        &&& after.runtime.runs.workflows@ == spared(self.runtime.runs.workflows@, pane, 0)
        &&& after.runtime.runs.relays@ == spared(self.runtime.runs.relays@, pane, 0)
        &&& after.runtime.runs.deliveries@ == self.runtime.runs.deliveries@.filter(
            delivered_elsewhere(pane),
        )
        &&& after.runtime.runs.submissions@ == self.runtime.runs.submissions@.filter(
            not_among(canceled(self.runtime.runs.workflows@, pane, 0)),
        ).filter(not_among(canceled(self.runtime.runs.relays@, pane, 0)))
        &&& after.runtime.runs.relay_activations@ == self.runtime.runs.relay_activations@.filter(
            activation_not_among(canceled(self.runtime.runs.relays@, pane, 0)),
        )
        &&& after.runtime.servers.list@ == self.runtime.servers.list@.filter(of_other(pane))
        &&& after.runtime.servers.next == self.runtime.servers.next
        &&& after.instructions == (InstructionQueue {
            items: after.instructions.items,
            ..self.instructions
        })
        &&& after.instructions.items@ == self.instructions.items@.filter(elsewhere(pane))
        &&& after.notifications.pending@ == self.notifications.pending@.filter(
            of_other_pane(pane),
        )
        &&& after.toast == toast_elsewhere(self.toast, pane)
        &&& after.pane_notes@ == forget_owner(self.pane_notes@, pane.0)
        &&& after.sources.panes@ == self.sources.panes@.filter(|s: PaneSource| s.pane != pane)
        &&& after.sources.next_token == self.sources.next_token
        &&& after.sources.watches@ == match watch_of(self.sources.watches@, pane, 0) {
            Some(i) => self.sources.watches@.remove(i),
            None => self.sources.watches@,
        }
        &&& self.unchanged_elsewhere(after)
    }

    /// `after` is the server once a Pane was closed: its runs ended, what was
    /// queued or noted for it is gone, and the hierarchy is left without it.
    pub open spec fn closed(self, after: Server, pane: PaneId, now: u64, out: PaneClosing) -> bool {
        &&& out.done == self.session.workspace@.closing(pane)
        &&& out.tell@ == direct_tokens(
            self.session.clients.list@,
            pane,
            self.session.clients.list@.len(),
        )
        &&& out.sync_files == (out.done.project_changed && self.session.files_visible())
        &&& after.session.workspace@ == self.session.workspace@.close(pane)
        &&& after.project_notes@ == match out.done.removed_project {
            Some(project) => forget_owner(self.project_notes@, project.0),
            None => self.project_notes@,
        }
        &&& self.forgot(
            after,
            pane,
            now,
            Forgotten {
                ended: out.ended,
                instructions: out.instructions,
                servers_changed: out.servers_changed,
                watch: out.watch,
                retired: out.retired,
            },
        )
    }

    /// `after` differs at most in what closing Panes touches.
    pub open spec fn unchanged_elsewhere(self, after: Server) -> bool {
        after == (Server {
            session: crate::session::Session {
                workspace: after.session.workspace,
                ..self.session
            },
            runtime: crate::replies::RuntimeSide {
                runs: after.runtime.runs,
                servers: after.runtime.servers,
                ..self.runtime
            },
            sources: after.sources,
            retiring_ptys: after.retiring_ptys,
            instructions: after.instructions,
            notifications: after.notifications,
            toast: after.toast,
            pane_notes: after.pane_notes,
            project_notes: after.project_notes,
            ..self
        })
    }

    /// Drop everything that is queued or noted for a Pane.
    fn forget_pane(&mut self, pane: PaneId, now: u64) -> (dropped: Forgotten)
        requires
            now <= u64::MAX - TERM_GRACE_MS,
            old(self).runtime.wf(),
            old(self).sources.wf(),
            old(self).instructions.wf(),
            old(self).pane_notes.wf(),
        ensures
            final(self).runtime.wf(),
            final(self).sources.wf(),
            final(self).instructions.wf(),
            final(self).pane_notes.wf(),
            final(self).project_notes == old(self).project_notes,
            final(self).session == old(self).session,
            old(self).forgot(*final(self), pane, now, dropped),
    {
        self.runtime.runs.drop_deliveries(pane);
        let ended = self.runtime.runs.cancel_orchestrations_for_pane(pane);
        let instructions = self.instructions.cancel_pane_instructions(pane);
        let servers_changed = self.runtime.servers.pane_closed(pane);
        self.notifications.forget_pane(pane);
        let about = match &self.toast {
            Some(t) => t.pane == pane,
            None => false,
        };
        if about {
            self.toast = None;
        }
        self.pane_notes.remove_owner(pane.0);
        let retired = self.retire_pane(pane, now);
        let watch = self.sources.drop_pane(pane);
        Forgotten { ended, instructions, servers_changed, watch, retired }
    }

    /// Drop everything that is kept about a Pane that no Tab shows.
    pub(crate) fn forget_unshown_pane(&mut self, pane: PaneId, now: u64) -> (dropped: Forgotten)
        requires
            now <= u64::MAX - TERM_GRACE_MS,
            old(self).runtime.wf(),
            old(self).sources.wf(),
            old(self).instructions.wf(),
            old(self).pane_notes.wf(),
            unshown(old(self).session.workspace@.windows, pane),
        ensures
            final(self).runtime.wf(),
            final(self).sources.wf(),
            final(self).instructions.wf(),
            final(self).pane_notes.wf(),
            final(self).project_notes == old(self).project_notes,
            final(self).session == old(self).session,
            old(self).forgot(*final(self), pane, now, dropped),
            final(self).knows_nothing_of(pane),
    {
        let dropped = self.forget_pane(pane, now);
        proof {
            lemma_forgotten(*old(self), *self, pane);
        }
        dropped
    }

    /// Close a Pane: its runs end, what was queued or noted for it goes, and the
    /// hierarchy is left without it. A Project that showed nothing else goes too.
    /// Its process is not waited for: it has some time left to end by itself.
    pub fn close_pane(&mut self, pane: PaneId, now: u64) -> (out: PaneClosing)
        requires
            old(self).wf(),
            now <= u64::MAX - TERM_GRACE_MS,
        ensures
            old(self).closed(*final(self), pane, now, out),
            out.retired ==> {
                &&& final(self).retiring_ptys@.len() == old(self).retiring_ptys@.len() + 1
                &&& final(self).retiring_ptys@.last().pane == pane
                &&& final(self).retiring_ptys@.last().pty.kill_at == Some(
                    (now + TERM_GRACE_MS) as u64,
                )
                &&& !final(self).retiring_ptys@.last().pty.child_exited
            },
            !out.done.stopped ==> final(self).wf(),
            final(self).knows_nothing_of(pane),
    {
        let tell = self.session.clients.pane_clients(pane);
        let visible = self.session.file_manager_visible();
        let dropped = self.forget_pane(pane, now);
        let done = self.session.workspace.close_pane(pane);
        if let Some(project) = done.removed_project {
            self.project_notes.remove_owner(project.0);
        }
        proof {
            lemma_forgotten(*old(self), *self, pane);
            assert(old(self).session.workspace.windows.len() <= usize::MAX);
            lemma_ids_stay_drawn(*old(self), *self, pane);
        }
        PaneClosing {
            done,
            tell,
            ended: dropped.ended,
            instructions: dropped.instructions,
            servers_changed: dropped.servers_changed,
            watch: dropped.watch,
            sync_files: done.project_changed && visible,
            retired: dropped.retired,
        }
    }
}

/// Closing a Pane shows nothing that was not shown.
proof fn lemma_ids_stay_drawn(before: Server, after: Server, pane: PaneId)
    requires
        before.session.workspace@.wf(),
        before.session.workspace@.windows.len() <= usize::MAX,
        before.ids_drawn(),
        after.session.workspace@ == before.session.workspace@.close(pane),
        after.next_pane_id == before.next_pane_id,
    ensures
        after.ids_drawn(),
{
    let s = before.session.workspace@;
    crate::tabs::lemma_close_tabs(s, pane);
    let windows = after.session.workspace@.windows;
    assert forall|q: PaneId| #[trigger] unshown(windows, q) || q.0 < after.next_pane_id by {
        assert(unshown(s.windows_without(pane), q) || !unshown(s.windows, q));
    }
}

proof fn lemma_kept<T>(list: Seq<T>, keep: spec_fn(T) -> bool)
    ensures
        forall|i: int| 0 <= i < list.filter(keep).len() ==> keep(#[trigger] list.filter(keep)[i]),
{
    assert forall|i: int| 0 <= i < list.filter(keep).len() implies keep(
        #[trigger] list.filter(keep)[i],
    ) by {
        list.lemma_filter_pred(keep, i);
    }
}

proof fn lemma_forgotten(before: Server, after: Server, pane: PaneId)
    requires
        unshown(after.session.workspace@.windows, pane),
        after.runtime.runs.workflows@ == spared(before.runtime.runs.workflows@, pane, 0),
        after.runtime.runs.relays@ == spared(before.runtime.runs.relays@, pane, 0),
        after.runtime.runs.deliveries@ == before.runtime.runs.deliveries@.filter(
            delivered_elsewhere(pane),
        ),
        after.runtime.servers.list@ == before.runtime.servers.list@.filter(of_other(pane)),
        after.instructions.items@ == before.instructions.items@.filter(elsewhere(pane)),
        after.notifications.pending@ == before.notifications.pending@.filter(
            of_other_pane(pane),
        ),
        after.toast == toast_elsewhere(before.toast, pane),
        after.pane_notes@ == forget_owner(before.pane_notes@, pane.0),
        after.sources.panes@ == before.sources.panes@.filter(|s: PaneSource| s.pane != pane),
    ensures
        after.knows_nothing_of(pane),
{
    lemma_kept(before.runtime.runs.deliveries@, delivered_elsewhere(pane));
    lemma_kept(before.runtime.servers.list@, of_other(pane));
    lemma_kept(before.instructions.items@, elsewhere(pane));
    lemma_kept(before.notifications.pending@, of_other_pane(pane));
    lemma_kept(before.sources.panes@, |s: PaneSource| s.pane != pane);
    lemma_cancel_exact(before.runtime.runs.workflows@, pane);
    lemma_cancel_exact(before.runtime.runs.relays@, pane);
    let workflows = after.runtime.runs.workflows@;
    assert forall|i: int| 0 <= i < workflows.len() implies !(#[trigger] workflows[i]).involves(
        pane,
    ) by {
        assert(workflows.contains(workflows[i]));
    }
    let relays = after.runtime.runs.relays@;
    assert forall|i: int| 0 <= i < relays.len() implies !(#[trigger] relays[i]).involves(pane) by {
        assert(relays.contains(relays[i]));
    }
}

/// What is kept of a list was in it.
proof fn lemma_kept_from<T>(list: Seq<T>, keep: spec_fn(T) -> bool)
    ensures
        forall|i: int|
            0 <= i < list.filter(keep).len() ==> list.contains(#[trigger] list.filter(keep)[i]),
{
    assert forall|i: int| 0 <= i < list.filter(keep).len() implies list.contains(
        #[trigger] list.filter(keep)[i],
    ) by {
        assert(list.filter(keep).contains(list.filter(keep)[i]));
        list.lemma_filter_contains_rev(keep, list.filter(keep)[i]);
    }
}

/// Closing a Pane brings back nothing that was kept about another one.
pub(crate) proof fn lemma_forgotten_stays(
    before: Server,
    after: Server,
    pane: PaneId,
    gone: PaneId,
    now: u64,
    dropped: Forgotten,
)
    requires
        before.knows_nothing_of(gone),
        before.forgot(after, pane, now, dropped),
        unshown(after.session.workspace@.windows, gone),
    ensures
        after.knows_nothing_of(gone),
{
    lemma_kept_from(before.runtime.runs.deliveries@, delivered_elsewhere(pane));
    lemma_kept_from(before.runtime.servers.list@, of_other(pane));
    lemma_kept_from(before.instructions.items@, elsewhere(pane));
    lemma_kept_from(before.notifications.pending@, of_other_pane(pane));
    lemma_kept_from(before.sources.panes@, |s: PaneSource| s.pane != pane);
    lemma_cancel_exact(before.runtime.runs.workflows@, pane);
    lemma_cancel_exact(before.runtime.runs.relays@, pane);
    let workflows = after.runtime.runs.workflows@;
    assert forall|i: int| 0 <= i < workflows.len() implies !(#[trigger] workflows[i]).involves(
        gone,
    ) by {
        assert(workflows.contains(workflows[i]));
    }
    let relays = after.runtime.runs.relays@;
    assert forall|i: int| 0 <= i < relays.len() implies !(#[trigger] relays[i]).involves(gone) by {
        assert(relays.contains(relays[i]));
    }
    let list = after.runtime.runs.deliveries@;
    assert forall|i: int| 0 <= i < list.len() implies (#[trigger] list[i]).pane != gone by {
        assert(before.runtime.runs.deliveries@.contains(list[i]));
    }
    let servers = after.runtime.servers.list@;
    assert forall|i: int| 0 <= i < servers.len() implies (#[trigger] servers[i]).pane != gone by {
        assert(before.runtime.servers.list@.contains(servers[i]));
    }
    let items = after.instructions.items@;
    assert forall|i: int| 0 <= i < items.len() implies (#[trigger] items[i]).pane != gone by {
        assert(before.instructions.items@.contains(items[i]));
    }
    let notices = after.notifications.pending@;
    assert forall|i: int| 0 <= i < notices.len() implies (#[trigger] notices[i]).pane != gone by {
        assert(before.notifications.pending@.contains(notices[i]));
    }
    let panes = after.sources.panes@;
    assert forall|i: int| 0 <= i < panes.len() implies (#[trigger] panes[i]).pane != gone by {
        assert(before.sources.panes@.contains(panes[i]));
    }
}

} // verus!
