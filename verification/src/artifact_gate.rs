//! The files that a run's turn must bring before it ends.
use crate::orchestration::{ActiveRun, OrchestrationKind, Orchestrations};
use crate::replies::RuntimeSide;
use crate::text::{push_decimal, push_text};
use crate::types::{PaneId, ProjectId};
use vstd::prelude::*;

verus! {

/// The first run whose open turn has this token, from position `i` on.
pub open spec fn run_with_token(list: Seq<ActiveRun>, token: u64, i: int) -> Option<int>
    decreases list.len() - i,
{
    if i < 0 || i >= list.len() {
        None
    } else if list[i].state.token == token {
        Some(i)
    } else {
        run_with_token(list, token, i + 1)
    }
}

/// The Pane of the role whose turn has this token.
pub open spec fn pane_with_token(list: Seq<ActiveRun>, token: u64) -> Option<PaneId> {
    match run_with_token(list, token, 0) {
        Some(i) => list[i].current_pane(),
        None => None,
    }
}

fn find_pane(list: &Vec<ActiveRun>, token: u64) -> (pane: Option<PaneId>)
    ensures
        pane == pane_with_token(list@, token),
{
    let mut i: usize = 0;
    while i < list.len()
        invariant
            i <= list@.len(),
            run_with_token(list@, token, 0) == run_with_token(list@, token, i as int),
        decreases list@.len() - i,
    {
        if list[i].state.token == token {
            return list[i].pane_of_turn();
        }
        i += 1;
    }
    None
}

/// What a human is asked for in a Pane.
#[derive(Debug)]
pub struct GateRequest {
    pub pane: PaneId,
    pub kind: OrchestrationKind,
    pub text: String,
}

impl Orchestrations {
    /// The files of a turn did not pass: ask a human, in the Pane whose turn it
    /// is. Nothing where the turn is over.
    pub fn report_artifact_gate_failure(&self, kind: OrchestrationKind, token: u64, error: &str) -> (
    request: Option<GateRequest>)
        ensures
            ({
                let pane = match kind {
                    OrchestrationKind::Workflow => pane_with_token(self.workflows@, token),
                    OrchestrationKind::Relay => pane_with_token(self.relays@, token),
                };
                match pane {
                    Some(id) => request matches Some(r) && r.pane == id && r.kind == kind && r.text@
                        == "artifact gate failed: "@ + error@,
                    None => request is None,
                }
            }),
    {
        let found = match kind {
            OrchestrationKind::Workflow => find_pane(&self.workflows, token),
            OrchestrationKind::Relay => find_pane(&self.relays, token),
        };
        match found {
            Some(pane) => {
                let mut text = "artifact gate failed: ".to_owned();
                push_text(&mut text, error);
                Some(GateRequest { pane, kind, text })
            },
            None => None,
        }
    }
}

/// The run that a task's files belong to, as far as the record shows it.
#[derive(Clone, Copy, Debug, PartialEq, Eq, Structural)]
pub enum OwningRun {
    /// No run was recorded for the task.
    Unknown,
    /// The record names a run that it does not hold.
    Lost,
    Known { id: u64, project: ProjectId, active_role: Option<u64> },
}

/// Whose files they are.
#[derive(Clone, Copy, Debug, PartialEq, Eq, Structural)]
pub struct ArtifactOwner {
    pub run: u64,
    pub project: ProjectId,
    pub role: u64,
}

/// What stands in the way of recording a task's files.
pub open spec fn ownership_error(task_id: u64, run: OwningRun) -> Option<Seq<char>> {
    match run {
        OwningRun::Unknown => Some(
            "artifact validation for Task "@ + crate::text::decimal(task_id as nat)
                + " had no owning Run"@,
        ),
        OwningRun::Lost => None,
        OwningRun::Known { id, active_role, .. } => if active_role is None {
            Some(
                "artifact validation for Run "@ + crate::text::decimal(id as nat)
                    + " had no active Role"@,
            )
        } else {
            None
        },
    }
}

impl RuntimeSide {
    /// Find whose files a checked submission brought. While the record cannot
    /// be trusted nothing is added to it; where the owner is not to be found,
    /// it is no longer trusted.
    pub fn record_validated_artifacts(&mut self, task_id: u64, run: OwningRun) -> (owner: Option<
        ArtifactOwner,
    >)
        ensures
            owner == if old(self).durability_error is Some {
                None
            } else {
                match run {
                    OwningRun::Known { id, project, active_role: Some(role) } => Some(
                        ArtifactOwner { run: id, project, role },
                    ),
                    _ => None,
                }
            },
            *final(self) == (RuntimeSide {
                durability_error: final(self).durability_error,
                ..*old(self)
            }),
            match old(self).durability_error {
                Some(_) => final(self).durability_error == old(self).durability_error,
                None => match ownership_error(task_id, run) {
                    Some(why) => final(self).durability_error matches Some(text) && text@ == why,
                    None => final(self).durability_error is None,
                },
            },
    {
        if self.durability_error.is_some() {
            return None;
        }
        match run {
            OwningRun::Unknown => {
                let mut why = "artifact validation for Task ".to_owned();
                push_decimal(&mut why, task_id);
                push_text(&mut why, " had no owning Run");
                self.durability_error = Some(why);
                None
            },
            OwningRun::Lost => None,
            OwningRun::Known { id, project, active_role } => match active_role {
                Some(role) => Some(ArtifactOwner { run: id, project, role }),
                None => {
                    let mut why = "artifact validation for Run ".to_owned();
                    push_decimal(&mut why, id);
                    push_text(&mut why, " had no active Role");
                    self.durability_error = Some(why);
                    None
                },
            },
        }
    }

    /// Take note of whether the ledger took a change: a rejected one is not
    /// recorded, and the record is no longer trusted.
    pub fn record_artifact_change(&mut self, rejected: Option<&str>) -> (recorded: bool)
        ensures
            recorded == (old(self).durability_error is None && rejected is None),
            *final(self) == (RuntimeSide {
                durability_error: final(self).durability_error,
                ..*old(self)
            }),
            match (old(self).durability_error, rejected) {
                (None, Some(error)) => final(self).durability_error matches Some(text) && text@
                    == "artifact projection rejected: "@ + error@,
                _ => final(self).durability_error == old(self).durability_error,
            },
    {
        if self.durability_error.is_some() {
            return false;
        }
        match rejected {
            Some(error) => {
                let mut why = "artifact projection rejected: ".to_owned();
                push_text(&mut why, error);
                self.durability_error = Some(why);
                false
            },
            None => true,
        }
    }
}

} // verus!
