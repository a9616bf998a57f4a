//! What left the hierarchy is forgotten everywhere else: Panes that no Tab shows
//! any more, and Projects that are gone.
use crate::broadcast::direct_tokens;
use crate::closing::{lemma_forgotten_stays, Forgotten};
use crate::hierarchy::{project_at, unshown, Project};
use crate::metadata::{forget_owner, Note};
use crate::reaper::TERM_GRACE_MS;
use crate::server::Server;
use crate::types::{PaneId, ProjectId, Token};
use vstd::prelude::*;

verus! {

/// A Pane that was forgotten.
#[derive(Debug)]
pub struct ForgottenPane {
    pub pane: PaneId,
    /// The clients that showed it alone, and are told that it ended.
    pub tell: Vec<Token>,
    pub dropped: Forgotten,
}

/// The server went through `states` as Panes were forgotten in turn.
pub open spec fn forgot_in_turn(
    states: Seq<Server>,
    now: u64,
    gone: Seq<ForgottenPane>,
) -> bool {
    &&& states.len() == gone.len() + 1
    &&& forall|k: int|
        0 <= k < gone.len() ==> (#[trigger] states[k]).forgot(
            states[k + 1],
            gone[k].pane,
            now,
            gone[k].dropped,
        )
}

/// The notes without those of the Projects, among the first `n`, that are gone.
pub open spec fn without_lost(
    notes: Map<(u64, Seq<char>), Note>,
    before: Seq<ProjectId>,
    projects: Seq<Project>,
    n: nat,
) -> Map<(u64, Seq<char>), Note>
    decreases n,
{
    if n == 0 {
        notes
    } else {
        let rest = without_lost(notes, before, projects, (n - 1) as nat);
        if project_at(projects, before[n - 1]) is None {
            forget_owner(rest, before[n - 1].0)
        } else {
            rest
        }
    }
}

impl Server {
    /// `after` is the server once these Panes were forgotten in turn.
    pub open spec fn swept(
        self,
        after: Server,
        list: Seq<PaneId>,
        now: u64,
        gone: Seq<ForgottenPane>,
    ) -> bool {
        &&& gone.len() == list.len()
        &&& forall|k: int| 0 <= k < gone.len() ==> (#[trigger] gone[k]).pane == list[k]
        &&& forall|k: int|
            0 <= k < gone.len() ==> (#[trigger] gone[k]).tell@ == direct_tokens(
                self.session.clients.list@,
                gone[k].pane,
                self.session.clients.list@.len(),
            )
        &&& exists|states: Seq<Server>|
            {
                &&& #[trigger] forgot_in_turn(states, now, gone)
                &&& states[0] == self
                &&& states.last() == after
            }
        &&& forall|k: int| 0 <= k < list.len() ==> after.knows_nothing_of(#[trigger] list[k])
        &&& after.session == self.session
        &&& after.project_notes == self.project_notes
        &&& self.unchanged_elsewhere(after)
    }

    /// Forget Panes that no Tab shows any more, one after the other, and let
    /// their processes retire.
    pub fn forget_panes(&mut self, list: &Vec<PaneId>, now: u64) -> (gone: Vec<ForgottenPane>)
        requires
            old(self).runtime.wf(),
            old(self).sources.wf(),
            old(self).instructions.wf(),
            old(self).pane_notes.wf(),
            forall|k: int|
                0 <= k < list@.len() ==> unshown(
                    old(self).session.workspace@.windows,
                    #[trigger] list@[k],
                ),
            now <= u64::MAX - TERM_GRACE_MS,
        ensures
            final(self).runtime.wf(),
            final(self).sources.wf(),
            final(self).instructions.wf(),
            final(self).pane_notes.wf(),
            old(self).swept(*final(self), list@, now, gone@),
    {
        let ghost windows = self.session.workspace@.windows;
        let mut gone: Vec<ForgottenPane> = Vec::new();
        let ghost mut states: Seq<Server> = seq![*self];
        let mut i: usize = 0;
        while i < list.len()
            invariant
                i <= list@.len(),
                windows == self.session.workspace@.windows,
                forall|k: int| 0 <= k < list@.len() ==> unshown(windows, #[trigger] list@[k]),
                now <= u64::MAX - TERM_GRACE_MS,
                self.runtime.wf(),
                self.sources.wf(),
                self.instructions.wf(),
                self.pane_notes.wf(),
                self.session == old(self).session,
                self.project_notes == old(self).project_notes,
                old(self).unchanged_elsewhere(*self),
                gone@.len() == i,
                forall|k: int| 0 <= k < i ==> (#[trigger] gone@[k]).pane == list@[k],
                forall|k: int|
                    0 <= k < i ==> (#[trigger] gone@[k]).tell@ == direct_tokens(
                        old(self).session.clients.list@,
                        gone@[k].pane,
                        old(self).session.clients.list@.len(),
                    ),
                forgot_in_turn(states, now, gone@),
                states[0] == *old(self),
                states.last() == *self,
                forall|k: int| 0 <= k < i ==> self.knows_nothing_of(#[trigger] list@[k]),
            decreases list@.len() - i,
        {
            let ghost before = *self;
            let ghost earlier = gone@;
            let pane = list[i];
            let tell = self.session.clients.pane_clients(pane);
            let dropped = self.forget_unshown_pane(pane, now);
            let ghost said = dropped;
            gone.push(ForgottenPane { pane, tell, dropped });
            proof {
                let grown = states.push(*self);
                assert forall|k: int| 0 <= k < gone@.len() implies (#[trigger] grown[k]).forgot(
                    grown[k + 1],
                    gone@[k].pane,
                    now,
                    gone@[k].dropped,
                ) by {
                    if k < i {
                        assert(gone@[k] == earlier[k]);
                        assert(states[k].forgot(
                            states[k + 1],
                            earlier[k].pane,
                            now,
                            earlier[k].dropped,
                        ));
                    }
                }
                assert(grown.last() == *self);
                states = grown;
                assert(forgot_in_turn(states, now, gone@));
                assert forall|k: int| 0 <= k < i + 1 implies self.knows_nothing_of(
                    #[trigger] list@[k],
                ) by {
                    if k < i {
                        lemma_forgotten_stays(before, *self, pane, list@[k], now, said);
                    }
                }
            }
            i += 1;
        }
        proof {
            assert(forgot_in_turn(states, now, gone@));
            assert(states[0] == *old(self) && states.last() == *self);
        }
        gone
    }

    /// Drop the notes of the Projects among `before` that are gone.
    pub fn forget_lost_projects(&mut self, before: &Vec<ProjectId>)
        requires
            old(self).project_notes.wf(),
        ensures
            final(self).project_notes.wf(),
            final(self).project_notes@ == without_lost(
                old(self).project_notes@,
                before@,
                old(self).session.workspace@.projects,
                before@.len(),
            ),
            *final(self) == (Server { project_notes: final(self).project_notes, ..*old(self) }),
    {
        let mut i: usize = 0;
        while i < before.len()
            invariant
                i <= before@.len(),
                self.project_notes.wf(),
                *self == (Server { project_notes: self.project_notes, ..*old(self) }),
                self.project_notes@ == without_lost(
                    old(self).project_notes@,
                    before@,
                    old(self).session.workspace@.projects,
                    i as nat,
                ),
            decreases before@.len() - i,
        {
            let lost = self.session.workspace.project_position(before[i]).is_none();
            if lost {
                self.project_notes.remove_owner(before[i].0);
            }
            i += 1;
        }
    }
}

} // verus!
