//! Runs whose time has come: which question is put about them, and what becomes
//! of them once it was answered.
use crate::guardrail::GuardDecision;
use crate::orchestration::{Action, ActiveRun, OrchestrationKind, Orchestrations};
use crate::run_flow::{rearmed, run_of_task, taken, RunTimer};
use vstd::prelude::*;

verus! {

/// What the engine is told of a run.
#[derive(Debug)]
pub enum EngineEvent {
    Stall,
    /// The role fell idle without a word.
    Idle { role: usize },
    /// A limit was reached.
    Guardrail { reason: String },
}

/// What is asked about a run whose timer passed.
#[derive(Debug)]
pub enum TimerQuestion {
    Engine(EngineEvent),
    /// Whether a run may have taken `elapsed` seconds where `limit` are allowed.
    Guard { elapsed: u64, limit: u64 },
}

/// A run whose timer passed, and what is asked about it.
#[derive(Debug)]
pub struct DueRun {
    pub run: ActiveRun,
    pub question: TimerQuestion,
}

/// What is left to do once a run was stepped.
#[derive(Clone, Copy, Debug, PartialEq, Eq, Structural)]
pub struct DueEnd {
    /// Write the run down.
    pub record: bool,
    /// The run goes on.
    pub kept: bool,
}

/// The seconds that count against a run's limit, once that passed.
pub open spec fn counted_seconds(run: ActiveRun, now_ms: u64) -> int {
    let elapsed = if now_ms < run.started_at_ms {
        0
    } else {
        (now_ms - run.started_at_ms) / 1_000
    };
    if elapsed < run.guard_limits.max_elapsed_seconds {
        run.guard_limits.max_elapsed_seconds as int
    } else {
        elapsed
    }
}

/// What is asked about a run whose timer passed.
pub open spec fn asked(run: ActiveRun, timer: RunTimer, now_ms: u64) -> TimerQuestion {
    match timer {
        RunTimer::Stall => TimerQuestion::Engine(EngineEvent::Stall),
        RunTimer::Idle => TimerQuestion::Engine(EngineEvent::Idle { role: run.state.cur }),
        RunTimer::Elapsed => TimerQuestion::Guard {
            elapsed: counted_seconds(run, now_ms) as u64,
            limit: run.guard_limits.max_elapsed_seconds,
        },
    }
}

/// The lists with the runs of one kind replaced.
pub open spec fn only_runs(
    before: Orchestrations,
    after: Orchestrations,
    kind: OrchestrationKind,
) -> bool {
    after == match kind {
        OrchestrationKind::Workflow => Orchestrations { workflows: after.workflows, ..before },
        OrchestrationKind::Relay => Orchestrations { relays: after.relays, ..before },
    }
}

impl Orchestrations {
    /// Take out the run of a task whose timer passed, with the timers off that
    /// this makes moot.
    pub fn begin_due(
        &mut self,
        kind: OrchestrationKind,
        task_id: u64,
        timer: RunTimer,
        now_ms: u64,
    ) -> (due: Option<DueRun>)
        requires
            old(self).wf(),
        ensures
            final(self).wf(),
            match run_of_task(old(self).runs(kind), task_id, 0) {
                Some(i) => {
                    let run = old(self).runs(kind)[i];
                    &&& due == Some(
                        DueRun {
                            run: run.after_timer(timer),
                            question: asked(run, timer, now_ms),
                        },
                    )
                    &&& run.wf()
                    &&& run.kind == kind
                    &&& final(self).runs(kind) == taken(old(self).runs(kind), i)
                    &&& only_runs(*old(self), *final(self), kind)
                },
                None => due is None && *final(self) == *old(self),
            },
    {
        let mut run = match self.take_run(kind, task_id) {
            Some(r) => r,
            None => {
                return None;
            },
        };
        let question = match timer {
            RunTimer::Stall => TimerQuestion::Engine(EngineEvent::Stall),
            RunTimer::Idle => TimerQuestion::Engine(EngineEvent::Idle { role: run.state.cur }),
            RunTimer::Elapsed => TimerQuestion::Guard {
                elapsed: run.elapsed_measure(now_ms),
                limit: run.guard_limits.max_elapsed_seconds,
            },
        };
        run.begin_timer(timer);
        Some(DueRun { run, question })
    }

    /// The guard has decided about a run's time. Where it allows more, the time
    /// counts again and the run goes on; otherwise the engine is told why not.
    pub fn settle_elapsed(
        &mut self,
        run: ActiveRun,
        decision: GuardDecision,
        now_ms: u64,
        clock_ms: u64,
    ) -> (stopped: Option<(ActiveRun, EngineEvent)>)
        requires
            old(self).wf(),
            run.wf(),
        ensures
            final(self).wf(),
            match decision {
                GuardDecision::Allow => {
                    &&& stopped is None
                    &&& final(self).runs(run.kind) == old(self).runs(run.kind).push(
                        ActiveRun {
                            elapsed_guard_triggered: false,
                            elapsed_deadline: rearmed(run, false, now_ms, clock_ms),
                            ..run
                        },
                    )
                    &&& only_runs(*old(self), *final(self), run.kind)
                },
                GuardDecision::Ask(reason) | GuardDecision::Deny(reason) => stopped == Some(
                    (run, EngineEvent::Guardrail { reason }),
                ) && *final(self) == *old(self),
            },
    {
        match decision {
            GuardDecision::Allow => {
                let mut again = run;
                again.elapsed_allowed(now_ms, clock_ms);
                self.return_run(again);
                None
            },
            GuardDecision::Ask(reason) => Some((run, EngineEvent::Guardrail { reason })),
            GuardDecision::Deny(reason) => Some((run, EngineEvent::Guardrail { reason })),
        }
    }

    /// What the engine's answer comes to: only an idle turn can open the next
    /// one, which gets a token of its own. `None` where no token is free.
    pub fn scope_due_action(&mut self, run: &mut ActiveRun, timer: RunTimer, action: Action) -> (
        scoped: Option<Action>)
        ensures
            timer != RunTimer::Idle ==> scoped == Some(action) && *final(run) == *old(run)
                && *final(self) == *old(self),
            timer == RunTimer::Idle ==> match action {
                Action::Inject { role, .. } => match scoped {
                    Some(out) => {
                        let t = final(run).state.token;
                        &&& out == (Action::Inject { role, token: t })
                        &&& t != 0
                        &&& !old(self).occupied(t)
                        &&& old(self).draws(t)
                        &&& *final(run) == (ActiveRun {
                            state: crate::orchestration::EngineState {
                                token: t,
                                ..old(run).state
                            },
                            ..*old(run)
                        })
                        &&& *final(self) == (Orchestrations { token_state: t, ..*old(self) })
                    },
                    None => {
                        &&& *final(run) == *old(run)
                        &&& forall|m: nat|
                            1 <= m <= u64::MAX ==> old(self).occupied(
                                #[trigger] crate::orchestration::token_after(
                                    old(self).token_state,
                                    m,
                                ),
                            )
                        &&& *final(self) == (Orchestrations {
                            token_state: crate::orchestration::token_after(
                                old(self).token_state,
                                u64::MAX as nat,
                            ),
                            ..*old(self)
                        })
                    },
                },
                _ => scoped == Some(action) && *final(run) == *old(run) && *final(self) == *old(
                    self,
                ),
            },
    {
        if timer == RunTimer::Idle {
            self.scope_activation_token(&mut run.state, action)
        } else {
            Some(action)
        }
    }

    /// The answer was carried out: put the run back unless it is over. A run
    /// that reached its time limit is put back in any case. An idle turn that
    /// ended its run is not written down again.
    pub fn finish_due(&mut self, run: ActiveRun, timer: RunTimer) -> (end: DueEnd)
        requires
            old(self).wf(),
            run.wf(),
        ensures
            final(self).wf(),
            end == (DueEnd {
                record: timer != RunTimer::Idle || !run.is_over(),
                kept: timer == RunTimer::Elapsed || !run.is_over(),
            }),
            end.kept ==> final(self).runs(run.kind) == old(self).runs(run.kind).push(run)
                && only_runs(*old(self), *final(self), run.kind),
            !end.kept ==> *final(self) == *old(self),
    {
        let over = run.over();
        let kept = timer == RunTimer::Elapsed || !over;
        if kept {
            self.return_run(run);
        }
        DueEnd { record: timer != RunTimer::Idle || !over, kept }
    }
}

/// Stepping one run leaves every other run as it was: with `new` in the place of
/// the run that was taken out, the list holds what it held before.
pub proof fn lemma_other_runs_kept(runs: Seq<ActiveRun>, i: int, new: ActiveRun)
    requires
        0 <= i < runs.len(),
    ensures
        taken(runs, i).push(new).to_multiset() == runs.update(i, new).to_multiset(),
        taken(runs, i).push(new).len() == runs.len(),
{
    broadcast use vstd::seq_lib::group_to_multiset_ensures;

    let last = runs.len() - 1;
    if i == last {
        assert(taken(runs, i).push(new) =~= runs.update(i, new));
    } else {
        assert(taken(runs, i) =~= runs.update(i, runs[last]).drop_last());
        assert(taken(runs, i).push(new) =~= runs.update(i, runs[last]).update(last, new));
        vstd::seq_lib::to_multiset_update(runs, i, runs[last]);
    }
}

} // verus!
