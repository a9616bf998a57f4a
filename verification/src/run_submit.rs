//! Submissions: a role reports that its turn is over.
use crate::hierarchy::Workspace;
use crate::orchestration::{
    ActiveRun, ArtifactClaim, OrchestrationKind, Orchestrations, PendingSubmission, Phase,
    SubmissionStatus, ARTIFACT_VALIDATION_TIMEOUT_MS,
};
use crate::run_actions::MAX_OUTCOME_CHARS;
use crate::run_flow::taken;
use crate::run_record::records;
use crate::run_recovery::DurableRun;
use crate::run_timers::only_runs;
use crate::text::{clip, same_text, trim};
use crate::types::PaneId;
use vstd::prelude::*;

verus! {

/// The most artifacts that one submission reports.
pub const MAX_ARTIFACTS: usize = 64;

/// The most characters that are kept of an artifact's path.
pub const MAX_ARTIFACT_PATH_CHARS: usize = 4_096;

/// The first run from position `i` on whose open turn has this token.
pub open spec fn awaiting_token(runs: Seq<ActiveRun>, token: u64, i: int) -> Option<int>
    decreases runs.len() - i,
{
    if i < 0 || i >= runs.len() {
        None
    } else if runs[i].state.token == token && runs[i].state.phase == Phase::Awaiting {
        Some(i)
    } else {
        awaiting_token(runs, token, i + 1)
    }
}

proof fn lemma_awaiting_token(runs: Seq<ActiveRun>, token: u64, i: int)
    requires
        0 <= i,
    ensures
        awaiting_token(runs, token, i) matches Some(k) ==> {
            &&& i <= k < runs.len()
            &&& runs[k].state.token == token
            &&& runs[k].state.phase == Phase::Awaiting
        },
        awaiting_token(runs, token, i) is None ==> forall|k: int|
            i <= k < runs.len() ==> !((#[trigger] runs[k]).state.token == token
                && runs[k].state.phase == Phase::Awaiting),
    decreases runs.len() - i,
{
    if i < runs.len() && !(runs[i].state.token == token && runs[i].state.phase == Phase::Awaiting) {
        lemma_awaiting_token(runs, token, i + 1);
    }
}

/// What a claim says.
pub open spec fn claim(c: ArtifactClaim) -> (u8, Seq<char>) {
    (c.kind, c.path@)
}

/// What a claim says, with its path clipped.
pub open spec fn clipped_claim(c: ArtifactClaim) -> (u8, Seq<char>) {
    (c.kind, crate::text::clipped(c.path@, MAX_ARTIFACT_PATH_CHARS as nat))
}

/// What a list of claims says.
pub open spec fn claims(list: Seq<ArtifactClaim>) -> Seq<(u8, Seq<char>)> {
    Seq::new(list.len(), |i: int| claim(list[i]))
}

/// What is kept of reported artifacts.
pub open spec fn kept_claims(list: Seq<ArtifactClaim>) -> Seq<(u8, Seq<char>)> {
    Seq::new(
        if list.len() <= MAX_ARTIFACTS {
            list.len()
        } else {
            MAX_ARTIFACTS as nat
        },
        |i: int| clipped_claim(list[i]),
    )
}

fn keep_claims(list: &Vec<ArtifactClaim>) -> (kept: Vec<ArtifactClaim>)
    ensures
        claims(kept@) == kept_claims(list@),
{
    let mut kept: Vec<ArtifactClaim> = Vec::new();
    let mut i: usize = 0;
    while i < list.len() && i < MAX_ARTIFACTS
        invariant
            i <= list@.len(),
            i <= MAX_ARTIFACTS,
            kept@.len() == i,
            forall|k: int| 0 <= k < i ==> claim(#[trigger] kept@[k]) == clipped_claim(list@[k]),
        decreases list@.len() - i,
    {
        kept.push(
            ArtifactClaim {
                kind: list[i].kind,
                path: clip(list[i].path.as_str(), MAX_ARTIFACT_PATH_CHARS),
            },
        );
        i += 1;
    }
    assert(claims(kept@) =~= kept_claims(list@));
    kept
}

fn copy_claims(list: &Vec<ArtifactClaim>) -> (copy: Vec<ArtifactClaim>)
    ensures
        claims(copy@) == claims(list@),
{
    let mut copy: Vec<ArtifactClaim> = Vec::new();
    let mut i: usize = 0;
    while i < list.len()
        invariant
            i <= list@.len(),
            copy@.len() == i,
            forall|k: int| 0 <= k < i ==> claim(#[trigger] copy@[k]) == claim(list@[k]),
        decreases list@.len() - i,
    {
        copy.push(ArtifactClaim { kind: list[i].kind, path: list[i].path.clone() });
        i += 1;
    }
    assert(claims(copy@) =~= claims(list@));
    copy
}

/// What a verifier decided.
#[derive(Debug)]
pub enum Verdict {
    Approved,
    Replan(String),
    Fix(String),
}

/// What the engine is told of a submission.
#[derive(Debug)]
pub struct SubmitEvent {
    pub token: u64,
    pub role: usize,
    pub status: SubmissionStatus,
    pub verdict: Option<Verdict>,
}

/// The decision that a verifier's word stands for: anything but approval and
/// replanning asks for fixes.
pub open spec fn is_verdict(word: Option<Seq<char>>, summary: Seq<char>, out: Option<Verdict>) -> bool {
    match word {
        None => out is None,
        Some(w) => if w == "approved"@ {
            out == Some(Verdict::Approved)
        } else if w == "replan"@ {
            out matches Some(Verdict::Replan(s)) && s@ == summary
        } else {
            out matches Some(Verdict::Fix(s)) && s@ == summary
        },
    }
}

fn read_verdict(word: &Option<String>, summary: &String) -> (out: Option<Verdict>)
    ensures
        is_verdict(crate::launch::opt_text(*word), summary@, out),
{
    match word {
        None => None,
        Some(w) => if same_text(w.as_str(), "approved") {
            Some(Verdict::Approved)
        } else if same_text(w.as_str(), "replan") {
            Some(Verdict::Replan(summary.clone()))
        } else {
            Some(Verdict::Fix(summary.clone()))
        },
    }
}

/// What the next turn is told: the summary, where it says anything.
pub open spec fn findings_of(summary: Seq<char>) -> Option<Seq<char>> {
    if summary.len() == 0 {
        None
    } else {
        Some(summary)
    }
}

fn find_in(summary: &String) -> (findings: Option<String>)
    ensures
        crate::launch::opt_text(findings) == findings_of(summary@),
{
    let none = summary.as_str().is_empty();
    assert(none == (summary@.len() == 0));
    if none {
        None
    } else {
        Some(summary.clone())
    }
}

/// What a submission comes to.
#[derive(Debug)]
pub enum SubmitStep {
    /// No open turn has the token.
    Ignored,
    /// The same submission is being checked already.
    Duplicate,
    /// The role's Pane belongs to no Project.
    Unplaced,
    /// The artifacts are to be checked first.
    Validate { pane: PaneId, root: String, expected: Vec<ArtifactClaim> },
    /// A human is to be asked.
    Ask { pane: PaneId, summary: String },
    /// The engine decides; the run was taken out. What it decides is carried
    /// out with the findings, where the role said anything.
    Decide { run: ActiveRun, event: SubmitEvent, pane: PaneId, findings: Option<String> },
}

/// A submission as it was taken.
#[derive(Debug)]
pub struct Submitted {
    pub step: SubmitStep,
    /// The summary, clipped.
    pub summary: String,
    /// The reported artifacts, clipped.
    pub artifacts: Vec<ArtifactClaim>,
}

/// The run with its silence and idle timers off.
pub open spec fn quieted(run: ActiveRun) -> ActiveRun {
    ActiveRun { stall_deadline: None, idle_deadline: None, ..run }
}

/// The artifacts that the open turn owes; a relay role owes none.
pub open spec fn owed(run: ActiveRun) -> Seq<ArtifactClaim> {
    if run.kind == OrchestrationKind::Workflow {
        run.roles@[run.state.cur as int].expected_artifacts@
    } else {
        Seq::empty()
    }
}

/// A submission of this kind and token is being checked.
pub open spec fn same_check(list: Seq<PendingSubmission>, kind: OrchestrationKind, token: u64) -> bool {
    exists|i: int|
        0 <= i < list.len() && (#[trigger] list[i]).kind == kind && list[i].token == token
}

fn has_same_check(list: &Vec<PendingSubmission>, kind: OrchestrationKind, token: u64) -> (found:
    bool)
    ensures
        found == same_check(list@, kind, token),
{
    let mut i: usize = 0;
    while i < list.len()
        invariant
            i <= list@.len(),
            forall|j: int|
                0 <= j < i ==> !((#[trigger] list@[j]).kind == kind && list@[j].token == token),
        decreases list@.len() - i,
    {
        if list[i].kind == kind && list[i].token == token {
            return true;
        }
        i += 1;
    }
    false
}

/// The path of the Project that a Pane belongs to.
pub open spec fn root_of_pane(s: crate::hierarchy::WorkspaceState, pane: PaneId) -> Option<String> {
    match crate::hierarchy::window_of(s.windows, pane) {
        Some(w) => match crate::hierarchy::project_at(s.projects, s.windows[w].project) {
            Some(p) => Some(s.projects[p].root),
            None => None,
        },
        None => None,
    }
}

impl Workspace {
    /// The path of the Project that a Pane belongs to.
    pub fn project_root_for_pane(&self, pane: PaneId) -> (root: Option<String>)
        ensures
            root == root_of_pane(self@, pane),
    {
        match self.window_of(pane) {
            Some(w) => match self.project_position(self.windows[w].project) {
                Some(p) => Some(self.projects[p].root.clone()),
                None => None,
            },
            None => None,
        }
    }
}

/// What a human is asked where the role says nothing.
pub open spec fn default_question(kind: OrchestrationKind) -> Seq<char> {
    match kind {
        OrchestrationKind::Workflow => "workflow role needs input"@,
        OrchestrationKind::Relay => "relay role needs input"@,
    }
}

/// The artifacts must be checked before the turn ends.
pub open spec fn must_check(
    run: ActiveRun,
    status: SubmissionStatus,
    reported: int,
    validated: bool,
) -> bool {
    !validated && status == SubmissionStatus::Done && (owed(run).len() > 0 || reported > 0)
}

/// A submission and what it does to the runs of its kind and to the checks
/// under way.
pub open spec fn submitted(
    before: Orchestrations,
    after: Orchestrations,
    workspace: crate::hierarchy::WorkspaceState,
    kind: OrchestrationKind,
    token: u64,
    status: SubmissionStatus,
    verdict: Option<String>,
    summary: Seq<char>,
    artifacts: Seq<ArtifactClaim>,
    validated: bool,
    now: u64,
    out: Submitted,
) -> bool {
    let kept = crate::text::clipped(summary, MAX_OUTCOME_CHARS as nat);
    match awaiting_token(before.runs(kind), token, 0) {
        None => out.step is Ignored && after == before,
        Some(i) => {
            let run = quieted(before.runs(kind)[i]);
            let runs = before.runs(kind).update(i, run);
            let pane = run.role_panes@[run.state.cur as int];
            &&& claims(out.artifacts@) == kept_claims(artifacts)
            &&& out.summary@ == kept
            &&& if must_check(run, status, artifacts.len() as int, validated) {
                &&& after.runs(kind) == runs
                &&& if same_check(before.submissions@, kind, token) {
                    out.step is Duplicate && after.submissions == before.submissions
                } else {
                    match root_of_pane(workspace, pane) {
                        None => out.step is Unplaced && after.submissions == before.submissions,
                        Some(root) => {
                            &&& out.step matches SubmitStep::Validate { pane: p, root: r, expected }
                            &&& p == pane
                            &&& r == root
                            &&& claims(expected@) == claims(owed(run))
                            &&& after.submissions@.len() == before.submissions@.len() + 1
                            &&& after.submissions@.drop_last() == before.submissions@
                            &&& ({
                                let check = after.submissions@.last();
                                &&& check == (PendingSubmission {
                                    kind,
                                    task_id: run.task_id,
                                    token,
                                    pane,
                                    status,
                                    verdict: if kind == OrchestrationKind::Workflow {
                                        verdict
                                    } else {
                                        None
                                    },
                                    summary: check.summary,
                                    due: (now + ARTIFACT_VALIDATION_TIMEOUT_MS) as u64,
                                })
                                &&& check.summary@ == kept
                            })
                        },
                    }
                }
            } else if status == SubmissionStatus::NeedsInput {
                &&& after.runs(kind) == runs
                &&& after.submissions == before.submissions
                &&& out.step matches SubmitStep::Ask { pane: p, summary: question }
                &&& p == pane
                &&& question@ == if crate::text::trimmed(kept).len() == 0 {
                    default_question(kind)
                } else {
                    kept
                }
            } else {
                &&& after.runs(kind) == taken(runs, i)
                &&& after.submissions == before.submissions
                &&& out.step matches SubmitStep::Decide { run: r, event, pane: p, findings }
                &&& r == run
                &&& p == pane
                &&& crate::launch::opt_text(findings) == findings_of(kept)
                &&& event.token == token
                &&& event.role == run.state.cur
                &&& event.status == status
                &&& is_verdict(
                    if kind == OrchestrationKind::Workflow {
                        crate::launch::opt_text(verdict)
                    } else {
                        None
                    },
                    kept,
                    event.verdict,
                )
            }
        },
    }
}

impl Orchestrations {
    /// Take a submission. A token that opens no turn is ignored; artifacts are
    /// checked before the turn ends.
    pub fn submit(
        &mut self,
        workspace: &Workspace,
        kind: OrchestrationKind,
        token: u64,
        status: SubmissionStatus,
        verdict: Option<String>,
        summary: &str,
        artifacts: &Vec<ArtifactClaim>,
        validated: bool,
        now: u64,
    ) -> (out: Submitted)
        requires
            old(self).wf(),
            now <= u64::MAX - ARTIFACT_VALIDATION_TIMEOUT_MS,
        ensures
            final(self).wf(),
            submitted(
                *old(self),
                *final(self),
                workspace@,
                kind,
                token,
                status,
                verdict,
                summary@,
                artifacts@,
                validated,
                now,
                out,
            ),
            final(self).deliveries == old(self).deliveries,
            final(self).relay_activations == old(self).relay_activations,
            final(self).token_state == old(self).token_state,
            kind == OrchestrationKind::Workflow ==> final(self).relays == old(self).relays,
            kind == OrchestrationKind::Relay ==> final(self).workflows == old(self).workflows,
            out.step matches SubmitStep::Decide { run, .. } ==> run.wf() && run.kind == kind,
    {
        let kept = clip(summary, MAX_OUTCOME_CHARS);
        let claimed = keep_claims(artifacts);
        assert(claims(claimed@).len() == kept_claims(artifacts@).len());
        let mut runs: Vec<ActiveRun> = Vec::new();
        match kind {
            OrchestrationKind::Workflow => std::mem::swap(&mut runs, &mut self.workflows),
            OrchestrationKind::Relay => std::mem::swap(&mut runs, &mut self.relays),
        }
        let ghost before = runs@;
        assert(before == old(self).runs(kind));
        let mut i: usize = 0;
        while i < runs.len() && !(runs[i].state.token == token && runs[i].state.phase
            == Phase::Awaiting)
            invariant
                i <= runs@.len(),
                runs@ == before,
                awaiting_token(before, token, 0) == awaiting_token(before, token, i as int),
            decreases runs@.len() - i,
        {
            i += 1;
        }
        let mut step = SubmitStep::Ignored;
        if i < runs.len() {
            assert(awaiting_token(before, token, 0) == Some(i as int));
            assert(before[i as int].wf() && before[i as int].kind == kind);
            runs[i].stall_deadline = None;
            runs[i].idle_deadline = None;
            let ghost run = quieted(before[i as int]);
            let ghost calm = before.update(i as int, run);
            assert(runs@ =~= calm);
            let cur: usize = runs[i].state.cur;
            let pane = runs[i].role_panes[cur];
            let expected = if kind == OrchestrationKind::Workflow {
                copy_claims(&runs[i].roles[cur].expected_artifacts)
            } else {
                Vec::new()
            };
            assert(claims(expected@) =~= claims(owed(run)));
            assert(claims(expected@).len() == claims(owed(run)).len());
            if !validated && status == SubmissionStatus::Done && (expected.len() > 0
                || claimed.len() > 0) {
                if has_same_check(&self.submissions, kind, token) {
                    step = SubmitStep::Duplicate;
                } else {
                    match workspace.project_root_for_pane(pane) {
                        None => {
                            step = SubmitStep::Unplaced;
                        },
                        Some(root) => {
                            let ghost listed = self.submissions@;
                            self.submissions.push(
                                PendingSubmission {
                                    kind,
                                    task_id: runs[i].task_id,
                                    token,
                                    pane,
                                    status,
                                    verdict: match kind {
                                        OrchestrationKind::Workflow => verdict,
                                        OrchestrationKind::Relay => None,
                                    },
                                    summary: kept.clone(),
                                    due: now + ARTIFACT_VALIDATION_TIMEOUT_MS,
                                },
                            );
                            assert(self.submissions@.drop_last() =~= listed);
                            step = SubmitStep::Validate { pane, root, expected };
                        },
                    }
                }
            } else if status == SubmissionStatus::NeedsInput {
                let said = trim(kept.as_str());
                let question = if said.as_str().is_empty() {
                    assert(said@.len() == 0);
                    match kind {
                        OrchestrationKind::Workflow => "workflow role needs input".to_owned(),
                        OrchestrationKind::Relay => "relay role needs input".to_owned(),
                    }
                } else {
                    kept.clone()
                };
                step = SubmitStep::Ask { pane, summary: question };
            } else {
                let word = match kind {
                    OrchestrationKind::Workflow => verdict,
                    OrchestrationKind::Relay => None,
                };
                let event = SubmitEvent {
                    token,
                    role: cur,
                    status,
                    verdict: read_verdict(&word, &kept),
                };
                let findings = find_in(&kept);
                let run = runs.swap_remove(i);
                step = SubmitStep::Decide { run, event, pane, findings };
            }
            assert forall|k: int| 0 <= k < runs@.len() implies (#[trigger] runs@[k]).wf()
                && runs@[k].kind == kind by {
                assert(before[k].wf() && before[k].kind == kind);
                assert(before.last().wf() && before.last().kind == kind);
            }
        }
        match kind {
            OrchestrationKind::Workflow => std::mem::swap(&mut runs, &mut self.workflows),
            OrchestrationKind::Relay => std::mem::swap(&mut runs, &mut self.relays),
        }
        Submitted { step, summary: kept, artifacts: claimed }
    }

    /// What the engine decided on a submission was carried out: a run that can
    /// go on is put back and written down as it then stands, and one that ended
    /// is neither.
    pub fn finish_submission(&mut self, run: ActiveRun) -> (record: Option<DurableRun>)
        requires
            old(self).wf(),
            run.wf(),
        ensures
            final(self).wf(),
            record is Some <==> run.is_live(),
            record matches Some(d) ==> records(d, run),
            run.is_live() ==> final(self).runs(run.kind) == old(self).runs(run.kind).push(run)
                && only_runs(*old(self), *final(self), run.kind),
            !run.is_live() ==> *final(self) == *old(self),
    {
        if !run.live() {
            return None;
        }
        let record = run.durable();
        self.return_run(run);
        Some(record)
    }
}

/// A submission ends the turn that its token opened and no other: with `next`
/// for what the engine made of the run, the list holds what it held before but
/// for that run.
pub proof fn lemma_submission_advances_one_run(
    before: Orchestrations,
    taken_out: Orchestrations,
    after: Orchestrations,
    workspace: crate::hierarchy::WorkspaceState,
    kind: OrchestrationKind,
    token: u64,
    status: SubmissionStatus,
    verdict: Option<String>,
    summary: Seq<char>,
    artifacts: Seq<ArtifactClaim>,
    validated: bool,
    now: u64,
    out: Submitted,
    next: ActiveRun,
)
    requires
        submitted(
            before,
            taken_out,
            workspace,
            kind,
            token,
            status,
            verdict,
            summary,
            artifacts,
            validated,
            now,
            out,
        ),
        out.step is Decide,
        after.runs(kind) == taken_out.runs(kind).push(next),
    ensures
        awaiting_token(before.runs(kind), token, 0) matches Some(i) && after.runs(
            kind,
        ).to_multiset() == before.runs(kind).update(i, next).to_multiset(),
{
    lemma_awaiting_token(before.runs(kind), token, 0);
    let i = awaiting_token(before.runs(kind), token, 0).unwrap();
    let run = quieted(before.runs(kind)[i]);
    let runs = before.runs(kind).update(i, run);
    crate::run_timers::lemma_other_runs_kept(runs, i, next);
    assert(runs.update(i, next) =~= before.runs(kind).update(i, next));
}

/// A forged or stale token changes nothing: where no open turn has it, every
/// run and every check stays as it is.
pub proof fn lemma_stale_token_ignored(
    before: Orchestrations,
    after: Orchestrations,
    workspace: crate::hierarchy::WorkspaceState,
    kind: OrchestrationKind,
    token: u64,
    status: SubmissionStatus,
    verdict: Option<String>,
    summary: Seq<char>,
    artifacts: Seq<ArtifactClaim>,
    validated: bool,
    now: u64,
    out: Submitted,
)
    requires
        submitted(
            before,
            after,
            workspace,
            kind,
            token,
            status,
            verdict,
            summary,
            artifacts,
            validated,
            now,
            out,
        ),
        forall|k: int|
            0 <= k < before.runs(kind).len() ==> !((#[trigger] before.runs(kind)[k]).state.token
                == token && before.runs(kind)[k].state.phase == Phase::Awaiting),
    ensures
        after == before,
        out.step is Ignored,
{
    lemma_awaiting_token(before.runs(kind), token, 0);
}

/// The verifier's own word decides. Only the word "approved" approves, and only
/// "replan" sends the plan back; any other word asks for fixes, with what the
/// verifier said. Without a word, and in a relay, there is no verdict.
pub proof fn lemma_verdict_is_the_verifiers_word(
    before: Orchestrations,
    after: Orchestrations,
    workspace: crate::hierarchy::WorkspaceState,
    kind: OrchestrationKind,
    token: u64,
    status: SubmissionStatus,
    verdict: Option<String>,
    summary: Seq<char>,
    artifacts: Seq<ArtifactClaim>,
    validated: bool,
    now: u64,
    out: Submitted,
)
    requires
        submitted(
            before,
            after,
            workspace,
            kind,
            token,
            status,
            verdict,
            summary,
            artifacts,
            validated,
            now,
            out,
        ),
        out.step is Decide,
    ensures
        ({
            let told = out.step->Decide_event.verdict;
            let size = if summary.len() < 16_384 {
                summary.len() as int
            } else {
                16_384
            };
            &&& told is Some <==> kind is Workflow && verdict is Some
            &&& told is Some ==> {
                let word = verdict->0@;
                &&& told->0 is Approved <==> word == "approved"@
                &&& told->0 is Replan <==> word == "replan"@
                &&& word != "approved"@ && word != "replan"@ ==> told->0 is Fix
                &&& told->0 matches Verdict::Replan(said) ==> said@ == summary.take(size)
                &&& told->0 matches Verdict::Fix(said) ==> said@ == summary.take(size)
            }
        }),
{
    reveal_strlit("approved");
    reveal_strlit("replan");
    assert("approved"@.len() != "replan"@.len());
    assert(summary.take(summary.len() as int) =~= summary);
}

/// What a submission for an open turn comes to. A role that needs input has its
/// human asked; one that failed is decided on; one that is done is decided on
/// once its artifacts were checked, or where it neither owes nor reports any.
/// Until it is decided on, the run keeps its place.
pub proof fn lemma_open_turn_is_answered(
    before: Orchestrations,
    after: Orchestrations,
    workspace: crate::hierarchy::WorkspaceState,
    kind: OrchestrationKind,
    token: u64,
    status: SubmissionStatus,
    verdict: Option<String>,
    summary: Seq<char>,
    artifacts: Seq<ArtifactClaim>,
    validated: bool,
    now: u64,
    out: Submitted,
    i: int,
)
    requires
        submitted(
            before,
            after,
            workspace,
            kind,
            token,
            status,
            verdict,
            summary,
            artifacts,
            validated,
            now,
            out,
        ),
        before.wf(),
        0 <= i < before.runs(kind).len(),
        before.runs(kind)[i].state.token == token,
        before.runs(kind)[i].state.phase == Phase::Awaiting,
        forall|k: int|
            0 <= k < i ==> !((#[trigger] before.runs(kind)[k]).state.token == token
                && before.runs(kind)[k].state.phase == Phase::Awaiting),
    ensures
        ({
            let run = before.runs(kind)[i];
            let cur = run.state.cur as int;
            let pane = run.role_panes@[cur];
            let unchecked = !validated && (artifacts.len() > 0 || (kind is Workflow
                && run.roles@[cur].expected_artifacts@.len() > 0));
            &&& !(out.step is Ignored)
            &&& status is NeedsInput <==> out.step is Ask
            &&& out.step is Decide <==> status is Failed || (status is Done && !unchecked)
            &&& out.step matches SubmitStep::Ask { pane: p, summary: question } ==> p == pane
                && question@.len() > 0
            &&& out.step matches SubmitStep::Validate { pane: p, .. } ==> p == pane
            &&& out.step matches SubmitStep::Decide { run: r, event, pane: p, findings } ==> {
                &&& p == pane
                &&& r.state == run.state
                &&& r.task_id == run.task_id
                &&& r.roles == run.roles
                &&& r.role_panes == run.role_panes
                &&& r.stall_deadline is None
                &&& r.idle_deadline is None
                &&& event.token == token
                &&& event.role == run.state.cur
                &&& event.status == status
                &&& findings is Some <==> summary.len() > 0
                &&& findings matches Some(text) ==> text@ == out.summary@
            }
            &&& out.summary@.len() <= summary.len()
            &&& out.summary@ == summary.take(out.summary@.len() as int)
            &&& summary.len() <= 16_384 ==> out.summary@ == summary
            &&& after.runs(kind).len() == before.runs(kind).len() - (if out.step is Decide {
                1int
            } else {
                0int
            })
        }),
{
    lemma_awaiting_token(before.runs(kind), token, 0);
    lemma_first_awaiting(before.runs(kind), token, 0, i);
    reveal_strlit("workflow role needs input");
    reveal_strlit("relay role needs input");
    assert(summary.take(summary.len() as int) =~= summary);
    let kept = crate::text::clipped(summary, MAX_OUTCOME_CHARS as nat);
    crate::text::lemma_trimmed_shorter(kept);
}

pub(crate) proof fn lemma_first_awaiting(runs: Seq<ActiveRun>, token: u64, from: int, i: int)
    requires
        0 <= from <= i < runs.len(),
        runs[i].state.token == token,
        runs[i].state.phase == Phase::Awaiting,
        forall|k: int|
            from <= k < i ==> !((#[trigger] runs[k]).state.token == token && runs[k].state.phase
                == Phase::Awaiting),
    ensures
        awaiting_token(runs, token, from) == Some(i),
    decreases i - from,
{
    if from < i {
        lemma_first_awaiting(runs, token, from + 1, i);
    }
}

/// What waits for its artifacts is what was said: once they are found in order,
/// the same turn is decided on with the status, the word and the summary that
/// were submitted.
pub proof fn lemma_checked_submission_is_decided_as_given(
    before: Orchestrations,
    mid: Orchestrations,
    after: Orchestrations,
    workspace: crate::hierarchy::WorkspaceState,
    later: crate::hierarchy::WorkspaceState,
    kind: OrchestrationKind,
    token: u64,
    status: SubmissionStatus,
    verdict: Option<String>,
    summary: Seq<char>,
    artifacts: Seq<ArtifactClaim>,
    found: Seq<ArtifactClaim>,
    now: u64,
    checked_at: u64,
    out: Submitted,
    done: Submitted,
)
    requires
        submitted(
            before,
            mid,
            workspace,
            kind,
            token,
            status,
            verdict,
            summary,
            artifacts,
            false,
            now,
            out,
        ),
        out.step is Validate,
        ({
            let check = mid.submissions@.last();
            submitted(
                mid,
                after,
                later,
                check.kind,
                check.token,
                check.status,
                check.verdict,
                check.summary@,
                found,
                true,
                checked_at,
                done,
            )
        }),
    ensures
        ({
            let check = mid.submissions@.last();
            &&& check.kind == kind
            &&& check.token == token
            &&& check.status == status
            &&& check.summary@ == out.summary@
            &&& kind is Workflow ==> check.verdict == verdict
            &&& kind is Relay ==> check.verdict is None
            &&& check.pane == out.step->Validate_pane
            &&& done.summary@ == out.summary@
            &&& done.step matches SubmitStep::Decide { event, pane, .. }
            &&& pane == check.pane
            &&& event.token == token
            &&& event.status == status
            &&& event.verdict is Some <==> kind is Workflow && verdict is Some
            &&& event.verdict == Some(Verdict::Approved) <==> kind is Workflow
                && crate::launch::opt_text(verdict) == Some("approved"@)
        }),
{
    reveal_strlit("approved");
    reveal_strlit("replan");
    assert("approved"@.len() != "replan"@.len());
    lemma_awaiting_token(before.runs(kind), token, 0);
    let i = awaiting_token(before.runs(kind), token, 0).unwrap();
    lemma_none_before(before.runs(kind), token, 0);
    let runs = mid.runs(kind);
    assert forall|k: int| 0 <= k < i implies !((#[trigger] runs[k]).state.token == token
        && runs[k].state.phase == Phase::Awaiting) by {
        assert(runs[k] == before.runs(kind)[k]);
    }
    lemma_first_awaiting(runs, token, 0, i);
    let kept = crate::text::clipped(summary, MAX_OUTCOME_CHARS as nat);
    assert(crate::text::clipped(kept, MAX_OUTCOME_CHARS as nat) == kept);
}

proof fn lemma_none_before(runs: Seq<ActiveRun>, token: u64, i: int)
    requires
        0 <= i,
    ensures
        awaiting_token(runs, token, i) matches Some(found) ==> forall|k: int|
            i <= k < found ==> !((#[trigger] runs[k]).state.token == token && runs[k].state.phase
                == Phase::Awaiting),
    decreases runs.len() - i,
{
    if i < runs.len() && !(runs[i].state.token == token && runs[i].state.phase == Phase::Awaiting) {
        lemma_none_before(runs, token, i + 1);
    }
}

} // verus!
