//! What a role that reports its work can rely on: what is kept of the report,
//! what is checked first, and what the check leads to.
use crate::artifact_gate::{ownership_error, pane_with_token, run_with_token, OwningRun};
use crate::hierarchy::{project_at, window_of, WorkspaceState};
use crate::orchestration::{
    ActiveRun, ArtifactClaim, OrchestrationKind, Orchestrations, PendingRelayActivation,
    PendingSubmission, Phase, SubmissionStatus,
};
use crate::replies::{
    activation_at, checked_at, checkpoint_done, turn_at, validation_done, ReplyStep, RuntimeSide,
};
use crate::run_submit::{
    claim, claims, kept_claims, lemma_first_awaiting, submitted, SubmitStep, Submitted,
};
use crate::text::{decimal, trimmed};
use vstd::prelude::*;

verus! {

/// Of the artifacts that a role reports, the first sixty-four are kept, each with
/// its kind and the first 4,096 characters of its path.
pub proof fn lemma_reported_artifacts_are_kept(
    before: Orchestrations,
    after: Orchestrations,
    workspace: WorkspaceState,
    kind: OrchestrationKind,
    token: u64,
    status: SubmissionStatus,
    verdict: Option<String>,
    summary: Seq<char>,
    artifacts: Seq<ArtifactClaim>,
    validated: bool,
    now: u64,
    out: Submitted,
    k: int,
)
    requires
        submitted(
            before,
            after,
            workspace,
            kind,
            token,
            status,
            verdict,
            summary,
            artifacts,
            validated,
            now,
            out,
        ),
        !(out.step is Ignored),
    ensures
        artifacts.len() <= 64 ==> out.artifacts@.len() == artifacts.len(),
        artifacts.len() > 64 ==> out.artifacts@.len() == 64,
        0 <= k < out.artifacts@.len() ==> {
            let path = artifacts[k].path@;
            &&& out.artifacts@[k].kind == artifacts[k].kind
            &&& path.len() <= 4_096 ==> out.artifacts@[k].path@ == path
            &&& path.len() > 4_096 ==> out.artifacts@[k].path@ == path.take(4_096)
        },
{
    let kept = claims(out.artifacts@);
    assert(kept == kept_claims(artifacts));
    assert(kept.len() == out.artifacts@.len());
    if 0 <= k < out.artifacts@.len() {
        assert(kept[k] == claim(out.artifacts@[k]));
        assert(artifacts[k].path@.take(artifacts[k].path@.len() as int) =~= artifacts[k].path@);
    }
}

/// Work that owes or reports artifacts is checked before its turn ends: once for
/// a turn, in the folder of the Project that the role's Pane belongs to, against
/// what the role owes, and within thirty seconds.
pub proof fn lemma_artifacts_are_checked_first(
    before: Orchestrations,
    after: Orchestrations,
    workspace: WorkspaceState,
    kind: OrchestrationKind,
    token: u64,
    verdict: Option<String>,
    summary: Seq<char>,
    artifacts: Seq<ArtifactClaim>,
    now: u64,
    out: Submitted,
    i: int,
    k: int,
)
    requires
        submitted(
            before,
            after,
            workspace,
            kind,
            token,
            SubmissionStatus::Done,
            verdict,
            summary,
            artifacts,
            false,
            now,
            out,
        ),
        now <= u64::MAX - 30_000,
        0 <= i < before.runs(kind).len(),
        before.runs(kind)[i].state.token == token,
        before.runs(kind)[i].state.phase == Phase::Awaiting,
        forall|j: int|
            0 <= j < i ==> !((#[trigger] before.runs(kind)[j]).state.token == token
                && before.runs(kind)[j].state.phase == Phase::Awaiting),
        ({
            let run = before.runs(kind)[i];
            artifacts.len() > 0 || (run.kind is Workflow
                && run.roles@[run.state.cur as int].expected_artifacts@.len() > 0)
        }),
    ensures
        ({
            let run = before.runs(kind)[i];
            let pane = run.role_panes@[run.state.cur as int];
            let under_way = exists|j: int|
                0 <= j < before.submissions@.len() && (#[trigger] before.submissions@[j]).kind
                    == kind && before.submissions@[j].token == token;
            let placed = match window_of(workspace.windows, pane) {
                Some(w) => project_at(workspace.projects, workspace.windows[w].project),
                None => None,
            };
            &&& after.runs(kind).len() == before.runs(kind).len()
            &&& out.step is Duplicate <==> under_way
            &&& out.step is Unplaced <==> !under_way && placed is None
            &&& out.step is Validate <==> !under_way && placed is Some
            &&& !(out.step is Validate) ==> after.submissions == before.submissions
            &&& out.step matches SubmitStep::Validate { pane: p, root, expected } ==> {
                let check = after.submissions@.last();
                &&& p == pane
                &&& root == workspace.projects[placed->0].root
                &&& run.kind is Relay ==> expected@.len() == 0
                &&& run.kind is Workflow ==> {
                    let owes = run.roles@[run.state.cur as int].expected_artifacts@;
                    &&& expected@.len() == owes.len()
                    &&& 0 <= k < owes.len() ==> expected@[k].kind == owes[k].kind
                        && expected@[k].path@ == owes[k].path@
                }
                &&& after.submissions@.len() == before.submissions@.len() + 1
                &&& 0 <= k < before.submissions@.len() ==> after.submissions@[k]
                    == before.submissions@[k]
                &&& check.task_id == run.task_id
                &&& check.pane == pane
                &&& check.due == now + 30_000
            }
        }),
{
    lemma_first_awaiting(before.runs(kind), token, 0, i);
    if out.step is Validate {
        let expected = out.step->expected@;
        let run = before.runs(kind)[i];
        let owes = if run.kind is Workflow {
            run.roles@[run.state.cur as int].expected_artifacts@
        } else {
            Seq::empty()
        };
        assert(claims(expected) == claims(owes));
        assert(claims(expected).len() == claims(owes).len());
        if 0 <= k < owes.len() {
            assert(claims(expected)[k] == claim(expected[k]));
            assert(claims(owes)[k] == claim(owes[k]));
        }
        if 0 <= k < before.submissions@.len() {
            assert(after.submissions@.drop_last()[k] == after.submissions@[k]);
        }
    }
}

/// A role that needs input has its human asked what it said, and where it said
/// nothing, that a role of its kind needs input.
pub proof fn lemma_human_is_asked_what_the_role_said(
    before: Orchestrations,
    after: Orchestrations,
    workspace: WorkspaceState,
    kind: OrchestrationKind,
    token: u64,
    status: SubmissionStatus,
    verdict: Option<String>,
    summary: Seq<char>,
    artifacts: Seq<ArtifactClaim>,
    validated: bool,
    now: u64,
    out: Submitted,
)
    requires
        submitted(
            before,
            after,
            workspace,
            kind,
            token,
            status,
            verdict,
            summary,
            artifacts,
            validated,
            now,
            out,
        ),
        out.step is Ask,
    ensures
        ({
            let question = out.step->Ask_summary@;
            &&& trimmed(out.summary@).len() > 0 ==> question == out.summary@
            &&& trimmed(out.summary@).len() == 0 && kind is Workflow ==> question
                == "workflow role needs input"@
            &&& trimmed(out.summary@).len() == 0 && kind is Relay ==> question
                == "relay role needs input"@
            &&& after.submissions == before.submissions
        }),
{
}

proof fn lemma_run_from(list: Seq<ActiveRun>, token: u64, i: int, from: int)
    requires
        0 <= from <= i < list.len(),
        list[i].state.token == token,
        forall|k: int| 0 <= k < i ==> (#[trigger] list[k]).state.token != token,
    ensures
        run_with_token(list, token, from) == Some(i),
    decreases i - from,
{
    if from < i {
        lemma_run_from(list, token, i, from + 1);
    }
}

proof fn lemma_no_run_from(list: Seq<ActiveRun>, token: u64, from: int)
    requires
        0 <= from,
        forall|k: int| 0 <= k < list.len() ==> (#[trigger] list[k]).state.token != token,
    ensures
        run_with_token(list, token, from) is None,
    decreases list.len() - from,
{
    if from < list.len() {
        lemma_no_run_from(list, token, from + 1);
    }
}

/// A failed check is shown in the Pane whose turn it was.
pub proof fn lemma_failed_check_is_shown_to_its_role(list: Seq<ActiveRun>, token: u64, i: int)
    ensures
        0 <= i < list.len() && list[i].state.token == token && list[i].state.cur
            < list[i].role_panes@.len() && (forall|k: int|
            0 <= k < i ==> (#[trigger] list[k]).state.token != token) ==> pane_with_token(
            list,
            token,
        ) == Some(list[i].role_panes@[list[i].state.cur as int]),
        (forall|k: int| 0 <= k < list.len() ==> (#[trigger] list[k]).state.token != token)
            ==> pane_with_token(list, token) is None,
{
    if 0 <= i < list.len() && list[i].state.token == token && (forall|k: int|
        0 <= k < i ==> (#[trigger] list[k]).state.token != token) {
        lemma_run_from(list, token, i, 0);
    }
    if forall|k: int| 0 <= k < list.len() ==> (#[trigger] list[k]).state.token != token {
        lemma_no_run_from(list, token, 0);
    }
}

/// Checked artifacts belong to a run and to its active role; where either is
/// missing, that is an error which names the task or the run.
pub proof fn lemma_checked_artifacts_have_an_owner(task_id: u64, run: OwningRun)
    ensures
        ({
            let error = ownership_error(task_id, run);
            &&& run is Unknown ==> error == Some(
                "artifact validation for Task "@ + decimal(task_id as nat)
                    + " had no owning Run"@,
            )
            &&& run is Lost ==> error is None
            &&& run matches OwningRun::Known { id, active_role, .. } ==> {
                &&& active_role is Some ==> error is None
                &&& active_role is None ==> error == Some(
                    "artifact validation for Run "@ + decimal(id as nat)
                        + " had no active Role"@,
                )
            }
        }),
{
}

proof fn lemma_checked_from(
    list: Seq<PendingSubmission>,
    kind: OrchestrationKind,
    task: u64,
    token: u64,
    i: int,
    from: int,
)
    requires
        0 <= from <= i < list.len(),
        list[i].kind == kind && list[i].task_id == task && list[i].token == token,
        forall|k: int|
            0 <= k < i ==> !((#[trigger] list[k]).kind == kind && list[k].task_id == task
                && list[k].token == token),
    ensures
        checked_at(list, kind, task, token, from) == Some(i),
    decreases i - from,
{
    if from < i {
        lemma_checked_from(list, kind, task, token, i, from + 1);
    }
}

proof fn lemma_unchecked_from(
    list: Seq<PendingSubmission>,
    kind: OrchestrationKind,
    task: u64,
    token: u64,
    from: int,
)
    requires
        0 <= from,
        forall|k: int|
            0 <= k < list.len() ==> !((#[trigger] list[k]).kind == kind && list[k].task_id == task
                && list[k].token == token),
    ensures
        checked_at(list, kind, task, token, from) is None,
    decreases list.len() - from,
{
    if from < list.len() {
        lemma_unchecked_from(list, kind, task, token, from + 1);
    }
}

/// A check counts once, for the submission that waits for it: that one waits no
/// longer, is carried out where the artifacts were in order, and is shown to have
/// failed where they were not.
pub proof fn lemma_check_counts_once(
    a: RuntimeSide,
    b: RuntimeSide,
    kind: OrchestrationKind,
    task: u64,
    token: u64,
    found: Vec<ArtifactClaim>,
    error: Option<String>,
    step: ReplyStep,
    i: int,
)
    requires
        validation_done(a, b, kind, task, token, found, error, step),
        0 <= i < a.runs.submissions@.len(),
        ({
            let list = a.runs.submissions@;
            &&& list[i].kind == kind && list[i].task_id == task && list[i].token == token
            &&& forall|k: int|
                0 <= k < i ==> !((#[trigger] list[k]).kind == kind && list[k].task_id == task
                    && list[k].token == token)
        }),
    ensures
        b.runs.submissions@.len() == a.runs.submissions@.len() - 1,
        b.runs.submissions@.to_multiset().insert(a.runs.submissions@[i])
            == a.runs.submissions@.to_multiset(),
        b.runs.workflows == a.runs.workflows && b.runs.relays == a.runs.relays,
        error is None ==> step is Validated && step->submission == a.runs.submissions@[i]
            && step->Validated_claims == found,
        error is Some ==> step is GateFailed && step->GateFailed_kind == kind
            && step->GateFailed_token == token && step->GateFailed_reason == error->0,
{
    lemma_checked_from(a.runs.submissions@, kind, task, token, i, 0);
    lemma_taken_out(a.runs.submissions@, i);
}

proof fn lemma_taken_out<T>(list: Seq<T>, i: int)
    requires
        0 <= i < list.len(),
    ensures
        crate::run_flow::taken(list, i).len() == list.len() - 1,
        crate::run_flow::taken(list, i).to_multiset().insert(list[i]) == list.to_multiset(),
{
    broadcast use vstd::seq_lib::group_to_multiset_ensures;

    let left = crate::run_flow::taken(list, i);
    let last = list.len() - 1;
    if i == last {
        assert(left.push(list[i]) =~= list);
    } else {
        assert(left.push(list[i]) =~= list.update(i, list[last]).update(last, list[i]));
        vstd::seq_lib::to_multiset_update(list, i, list[last]);
        vstd::seq_lib::to_multiset_update(list.update(i, list[last]), last, list[i]);
        assert(left.push(list[i]).to_multiset() =~= list.to_multiset());
    }
}

/// A check that nothing waits for changes nothing.
pub proof fn lemma_check_without_a_submission(
    a: RuntimeSide,
    b: RuntimeSide,
    kind: OrchestrationKind,
    task: u64,
    token: u64,
    found: Vec<ArtifactClaim>,
    error: Option<String>,
    step: ReplyStep,
)
    requires
        validation_done(a, b, kind, task, token, found, error, step),
        forall|k: int|
            0 <= k < a.runs.submissions@.len() ==> !((#[trigger] a.runs.submissions@[k]).kind
                == kind && a.runs.submissions@[k].task_id == task && a.runs.submissions@[k].token
                == token),
    ensures
        b == a,
        step is Nothing,
{
    lemma_unchecked_from(a.runs.submissions@, kind, task, token, 0);
}

proof fn lemma_activation_from(
    list: Seq<PendingRelayActivation>,
    task: u64,
    token: u64,
    i: int,
    from: int,
)
    requires
        0 <= from <= i < list.len(),
        list[i].task_id == task && list[i].token == token,
        forall|k: int|
            0 <= k < i ==> !((#[trigger] list[k]).task_id == task && list[k].token == token),
    ensures
        activation_at(list, task, token, from) == Some(i),
    decreases i - from,
{
    if from < i {
        lemma_activation_from(list, task, token, i, from + 1);
    }
}

proof fn lemma_turn_from(list: Seq<ActiveRun>, task: u64, token: u64, i: int, from: int)
    requires
        0 <= from <= i < list.len(),
        list[i].task_id == task && list[i].state.token == token,
        forall|k: int|
            0 <= k < i ==> !((#[trigger] list[k]).task_id == task && list[k].state.token == token),
    ensures
        turn_at(list, task, token, from) == Some(i),
    decreases i - from,
{
    if from < i {
        lemma_turn_from(list, task, token, i, from + 1);
    }
}

/// A turn that waited for its checkpoint starts once that was made or could not
/// be: the run it belongs to goes on as it was, and keeps the checkpoint under
/// the turn's token.
pub proof fn lemma_turn_starts_after_its_checkpoint(
    a: RuntimeSide,
    b: RuntimeSide,
    task: u64,
    token: u64,
    checkpoint: Option<String>,
    step: ReplyStep,
    i: int,
    r: int,
)
    requires
        checkpoint_done(a, b, task, token, checkpoint, step),
        0 <= i < a.runs.relay_activations@.len(),
        a.runs.relay_activations@[i].task_id == task && a.runs.relay_activations@[i].token == token,
        forall|k: int|
            0 <= k < i ==> !((#[trigger] a.runs.relay_activations@[k]).task_id == task
                && a.runs.relay_activations@[k].token == token),
        0 <= r < a.runs.relays@.len(),
        a.runs.relays@[r].task_id == task && a.runs.relays@[r].state.token == token,
        forall|k: int|
            0 <= k < r ==> !((#[trigger] a.runs.relays@[k]).task_id == task
                && a.runs.relays@[k].state.token == token),
    ensures
        ({
            let run = a.runs.relays@[r];
            &&& step matches ReplyStep::Activate { run: next, activation }
            &&& activation == a.runs.relay_activations@[i]
            &&& next.state == run.state && next.roles == run.roles
            &&& next.role_panes == run.role_panes
            &&& checkpoint is None ==> next.checkpoints@ == run.checkpoints@
            &&& checkpoint is Some ==> {
                &&& next.checkpoints@.len() == run.checkpoints@.len() + 1
                &&& next.checkpoints@.drop_last() == run.checkpoints@
                &&& next.checkpoints@.last().token == token
                &&& next.checkpoints@.last().name == checkpoint->0
            }
            &&& b.runs.relays@.to_multiset().insert(run) == a.runs.relays@.to_multiset()
            &&& b.runs.relay_activations@.to_multiset().insert(activation)
                == a.runs.relay_activations@.to_multiset()
            &&& b.runs.workflows == a.runs.workflows
        }),
{
    lemma_activation_from(a.runs.relay_activations@, task, token, i, 0);
    lemma_turn_from(a.runs.relays@, task, token, r, 0);
    lemma_taken_out(a.runs.relay_activations@, i);
    lemma_taken_out(a.runs.relays@, r);
    let run = a.runs.relays@[r];
    if checkpoint is Some {
        let made = crate::orchestration::Checkpoint { token, name: checkpoint->0 };
        assert(run.checkpoints@.push(made).drop_last() =~= run.checkpoints@);
    }
}

} // verus!
