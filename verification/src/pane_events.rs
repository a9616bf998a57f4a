//! What one batch of PTY output means: agent reports in it, changes of the
//! screen that are worth reading, and what the server does next.
use crate::cwd::{advanced, text_of, update_working_directory};
use crate::detection::{
    AgentPane, AgentStatus, Departure, DetectionAuthority, DetectionProvenance, DetectionRecord,
    DetectionSource, PaneAgent, Transition,
};
use crate::text::same_text;
use vstd::prelude::*;
use vstd::string::*;
use vstd::utf8::*;

verus! {

/// One report of an agent about itself.
#[derive(Debug)]
pub struct AgentEvent {
    pub agent: Option<String>,
    pub status: Option<AgentStatus>,
    /// The agent is ready for queued direction.
    pub cooperative_ready: bool,
    pub session_id: Option<String>,
    pub resume_command: Option<Vec<String>>,
}

/// What one report asks of the host.
#[derive(Clone, Copy, Debug, PartialEq, Eq, Structural)]
pub struct EventEffect {
    /// The agent's binding is to be recorded.
    pub bound: bool,
    /// The agent's session is to be recorded.
    pub session: bool,
    /// A status to record.
    pub recorded: Option<AgentStatus>,
    /// The agent left.
    pub unbound: bool,
    /// The launch profile is void.
    pub profile_cleared: bool,
    pub transition: Option<Transition>,
    /// The fleet surfaces changed.
    pub changed: bool,
    /// The invocation is over.
    pub ended: bool,
}

impl EventEffect {
    pub open spec fn nothing() -> EventEffect {
        EventEffect {
            bound: false,
            session: false,
            recorded: None,
            unbound: false,
            profile_cleared: false,
            transition: None,
            changed: false,
            ended: false,
        }
    }
}

/// The evidence of a cooperative report.
pub open spec fn report_evidence() -> Seq<char> {
    "cooperative OSC 777 event"@
}

/// A change of status, where it is one.
pub open spec fn changed_to(previous: AgentStatus, status: AgentStatus) -> Option<Transition> {
    if previous != status {
        Some(Transition { previous, status })
    } else {
        None
    }
}

/// An event tells of a session.
pub open spec fn tells_session(ev: AgentEvent) -> bool {
    ev.session_id is Some || ev.resume_command is Some
}

/// The Pane after the report that its agent exited.
pub open spec fn after_exit(pane: AgentPane, timestamp_ms: u64) -> AgentPane {
    AgentPane {
        agent: None,
        last_detection: match pane.agent {
            Some(agent) => Some(
                DetectionRecord {
                    agent: agent.id,
                    status: AgentStatus::Exited,
                    authority: DetectionAuthority::Osc777,
                    evidence: Departure::SessionEnd,
                    foreground_pid: agent.foreground_pid,
                    provenance: DetectionProvenance::plain(
                        DetectionSource::Cooperative,
                        timestamp_ms,
                        agent.foreground_pid,
                    ),
                },
            ),
            None => pane.last_detection,
        },
        launch_args: None,
        ..pane
    }
}

/// `after` is the Pane `before` once a report named its agent.
pub open spec fn named_agent(
    before: AgentPane,
    after: AgentPane,
    ev: AgentEvent,
    foreground: Option<i32>,
    now: u64,
    timestamp_ms: u64,
) -> bool {
    &&& after.agent matches Some(agent) && ({
        &&& agent.id == ev.agent->0
        &&& agent.status == reported_status(ev)
        &&& agent.authority == DetectionAuthority::Osc777
        &&& agent.evidence@ == report_evidence()
        &&& agent.provenance == DetectionProvenance::plain(
            DetectionSource::Cooperative,
            timestamp_ms,
            foreground,
        )
        &&& agent.foreground_pid == foreground
        &&& agent.started_at == match before.agent {
            Some(known) => if known.id@ == ev.agent->0@ {
                known.started_at
            } else {
                now
            },
            None => now,
        }
        &&& agent.session_id == ev.session_id
        &&& agent.resume_command == ev.resume_command
    })
    &&& after == (AgentPane { agent: after.agent, ..before })
}

/// The status that a report with a name gives.
pub open spec fn reported_status(ev: AgentEvent) -> AgentStatus {
    match ev.status {
        Some(status) => status,
        None => AgentStatus::Working,
    }
}

/// `after` is the agent `before` once a report without a name refined it.
pub open spec fn refined_agent(
    before: PaneAgent,
    after: PaneAgent,
    ev: AgentEvent,
    timestamp_ms: u64,
) -> bool {
    let session = PaneAgent {
        session_id: if ev.session_id is Some {
            ev.session_id
        } else {
            before.session_id
        },
        resume_command: if ev.resume_command is Some {
            ev.resume_command
        } else {
            before.resume_command
        },
        ..before
    };
    match ev.status {
        Some(status) => after.evidence@ == report_evidence() && after == (PaneAgent {
            status,
            authority: DetectionAuthority::Osc777,
            evidence: after.evidence,
            provenance: DetectionProvenance::plain(
                DetectionSource::Cooperative,
                timestamp_ms,
                before.foreground_pid,
            ),
            ..session
        }),
        None => after == session,
    }
}

/// A report was applied to a Pane, with this effect.
pub open spec fn event_done(
    before: AgentPane,
    after: AgentPane,
    ev: AgentEvent,
    foreground: Option<i32>,
    now: u64,
    timestamp_ms: u64,
    effect: EventEffect,
) -> bool {
    &&& ev.status == Some(AgentStatus::Exited) ==> {
        &&& after == after_exit(before, timestamp_ms)
        &&& effect == (EventEffect {
            unbound: before.agent is Some,
            changed: before.agent is Some,
            profile_cleared: before.launch_args is Some,
            ended: true,
            ..EventEffect::nothing()
        })
    }
    &&& ev.status != Some(AgentStatus::Exited) && ev.agent is Some ==> {
        &&& named_agent(before, after, ev, foreground, now, timestamp_ms)
        &&& effect == (EventEffect {
            bound: true,
            session: tells_session(ev),
            recorded: Some(reported_status(ev)),
            transition: changed_to(before.status(), reported_status(ev)),
            changed: true,
            ..EventEffect::nothing()
        })
    }
    &&& ev.status != Some(AgentStatus::Exited) && ev.agent is None && before.agent is Some
        ==> {
        &&& after.agent matches Some(agent) && refined_agent(
            before.agent->0,
            agent,
            ev,
            timestamp_ms,
        )
        &&& after == (AgentPane { agent: after.agent, ..before })
        &&& effect == (EventEffect {
            session: tells_session(ev),
            recorded: ev.status,
            transition: match ev.status {
                Some(status) => changed_to(before.status(), status),
                None => None,
            },
            ..EventEffect::nothing()
        })
    }
    &&& ev.status != Some(AgentStatus::Exited) && ev.agent is None && before.agent is None
        ==> after == before && effect == EventEffect::nothing()
}

impl AgentPane {
    /// Apply one cooperative report: bind the agent it names, refine the bound
    /// one, or, where it says that the session ended, unbind it.
    pub fn apply_agent_event(
        &mut self,
        ev: AgentEvent,
        foreground: Option<i32>,
        now: u64,
        timestamp_ms: u64,
    ) -> (effect: EventEffect)
        ensures
            event_done(*old(self), *final(self), ev, foreground, now, timestamp_ms, effect),
    {
        let mut effect = EventEffect {
            bound: false,
            session: false,
            recorded: None,
            unbound: false,
            profile_cleared: false,
            transition: None,
            changed: false,
            ended: false,
        };
        if ev.status == Some(AgentStatus::Exited) {
            effect.ended = true;
            if let Some(agent) = self.agent.take() {
                let pid = agent.foreground_pid;
                self.last_detection = Some(
                    DetectionRecord {
                        agent: agent.id,
                        status: AgentStatus::Exited,
                        authority: DetectionAuthority::Osc777,
                        evidence: Departure::SessionEnd,
                        foreground_pid: pid,
                        provenance: DetectionProvenance::direct(
                            DetectionSource::Cooperative,
                            timestamp_ms,
                            pid,
                        ),
                    },
                );
                effect.unbound = true;
                effect.changed = true;
            }
            if self.launch_args.is_some() {
                effect.profile_cleared = true;
                self.launch_args = None;
            }
            return effect;
        }
        let previous = self.current_status();
        let tells = ev.session_id.is_some() || ev.resume_command.is_some();
        match ev.agent {
            Some(id) => {
                let status = match ev.status {
                    Some(status) => status,
                    None => AgentStatus::Working,
                };
                let started_at: u64 = match &self.agent {
                    Some(known) => if same_text(known.id.as_str(), id.as_str()) {
                        known.started_at
                    } else {
                        now
                    },
                    None => now,
                };
                self.agent = Some(
                    PaneAgent {
                        id,
                        status,
                        authority: DetectionAuthority::Osc777,
                        evidence: "cooperative OSC 777 event".to_owned(),
                        provenance: DetectionProvenance::direct(
                            DetectionSource::Cooperative,
                            timestamp_ms,
                            foreground,
                        ),
                        foreground_pid: foreground,
                        started_at,
                        session_id: ev.session_id,
                        resume_command: ev.resume_command,
                    },
                );
                effect.bound = true;
                effect.session = tells;
                effect.recorded = Some(status);
                if previous != status {
                    effect.transition = Some(Transition { previous, status });
                }
                effect.changed = true;
            },
            None => {
                if let Some(mut agent) = self.agent.take() {
                    effect.session = tells;
                    if ev.session_id.is_some() {
                        agent.session_id = ev.session_id;
                    }
                    if ev.resume_command.is_some() {
                        agent.resume_command = ev.resume_command;
                    }
                    if let Some(status) = ev.status {
                        agent.status = status;
                        agent.authority = DetectionAuthority::Osc777;
                        agent.evidence = "cooperative OSC 777 event".to_owned();
                        agent.provenance = DetectionProvenance::direct(
                            DetectionSource::Cooperative,
                            timestamp_ms,
                            agent.foreground_pid,
                        );
                        effect.recorded = Some(status);
                        if previous != status {
                            effect.transition = Some(Transition { previous, status });
                        }
                    }
                    self.agent = Some(agent);
                }
            },
        }
        effect
    }

    /// Bind an agent that the server itself started, so that it shows at once.
    pub fn bind_agent(
        &mut self,
        agent_id: &str,
        foreground: Option<i32>,
        now: u64,
        timestamp_ms: u64,
    )
        ensures
            final(self).agent matches Some(agent) && agent.id@ == agent_id@ && agent.status
                == AgentStatus::Starting && agent.authority == DetectionAuthority::Process
                && agent.evidence@ == "launched by Uniterm as "@ + agent_id@ && agent.provenance
                == DetectionProvenance::plain(DetectionSource::Launch, timestamp_ms, foreground)
                && agent.foreground_pid == foreground && agent.started_at == now
                && agent.session_id is None && agent.resume_command is None,
            *final(self) == (AgentPane { agent: final(self).agent, ..*old(self) }),
    {
        let mut evidence = "launched by Uniterm as ".to_owned();
        evidence.append(agent_id);
        self.agent = Some(
            PaneAgent {
                id: agent_id.to_owned(),
                status: AgentStatus::Starting,
                authority: DetectionAuthority::Process,
                evidence,
                provenance: DetectionProvenance::direct(
                    DetectionSource::Launch,
                    timestamp_ms,
                    foreground,
                ),
                foreground_pid: foreground,
                started_at: now,
                session_id: None,
                resume_command: None,
            },
        );
    }

    /// Take note that the kernel reported the agent's process gone; whether an
    /// agent was bound.
    pub fn on_process_exit(&mut self, pid: i32, timestamp_ms: u64) -> (unbound: bool)
        ensures
            unbound == (old(self).agent is Some),
            *final(self) == match old(self).agent {
                None => *old(self),
                Some(agent) => AgentPane {
                    agent: None,
                    candidate: None,
                    last_detection: Some(
                        DetectionRecord {
                            agent: agent.id,
                            status: AgentStatus::Exited,
                            authority: DetectionAuthority::KernelExit,
                            evidence: Departure::ProcessExit(pid),
                            foreground_pid: Some(pid),
                            provenance: DetectionProvenance::plain(
                                DetectionSource::Kernel,
                                timestamp_ms,
                                Some(pid),
                            ),
                        },
                    ),
                    ..*old(self)
                },
            },
    {
        let Some(agent) = self.agent.take() else {
            return false;
        };
        self.last_detection = Some(
            DetectionRecord {
                agent: agent.id,
                status: AgentStatus::Exited,
                authority: DetectionAuthority::KernelExit,
                evidence: Departure::ProcessExit(pid),
                foreground_pid: Some(pid),
                provenance: DetectionProvenance::direct(
                    DetectionSource::Kernel,
                    timestamp_ms,
                    Some(pid),
                ),
            },
        );
        self.candidate = None;
        true
    }
}

/// The first `n` bytes taken into the hash: each is mixed in, then multiplied
/// modulo 2 to the 64.
pub open spec fn fnv(bytes: Seq<u8>, n: nat) -> u64
    decreases n,
{
    if n == 0 {
        0xcbf2_9ce4_8422_2325
    } else {
        (fnv(bytes, (n - 1) as nat) ^ (bytes[n - 1] as u64)).wrapping_mul(0x100_0000_01b3)
    }
}

/// The hash of a text.
pub open spec fn text_hash(text: Seq<char>) -> u64 {
    fnv(encode_utf8(text), encode_utf8(text).len())
}

/// A hash by which repeated evidence is recognized.
pub fn evidence_hash(text: &str) -> (hash: u64)
    ensures
        hash == text_hash(text@),
{
    let bytes = text.as_bytes();
    let mut hash: u64 = 0xcbf2_9ce4_8422_2325;
    let mut i: usize = 0;
    while i < bytes.len()
        invariant
            i <= bytes@.len(),
            hash == fnv(bytes@, i as nat),
        decreases bytes@.len() - i,
    {
        hash = (hash ^ (bytes[i] as u64)).wrapping_mul(0x100_0000_01b3);
        i += 1;
    }
    hash
}

/// `x` rotated left by one bit.
pub open spec fn rotated(x: u64) -> u64 {
    (x << 1) | (x >> 63)
}

/// The hash of what the screen and the title show.
pub open spec fn screen_hash(tail: Seq<char>, title: Seq<char>) -> u64 {
    text_hash(tail) ^ rotated(text_hash(title))
}

/// What is worth sending to the provider rules.
#[derive(Clone, Copy, Debug, PartialEq, Eq, Structural)]
pub struct OutputNews {
    /// The foreground process is another one.
    pub process_changed: bool,
    /// The screen or the process changed, so the evidence is sent.
    pub evidence: bool,
    /// The recent output changed, so local servers may have been announced.
    pub dev_server: bool,
}

impl AgentPane {
    /// What is worth sending of what a Pane shows.
    pub open spec fn output_news(
        self,
        foreground: Option<i32>,
        tail: Seq<char>,
        title: Seq<char>,
        dev_tail: Seq<char>,
    ) -> OutputNews {
        OutputNews {
            process_changed: foreground != self.foreground_pid,
            evidence: foreground != self.foreground_pid || screen_hash(tail, title)
                != self.last_evidence_hash,
            dev_server: text_hash(dev_tail) != self.last_dev_server_hash,
        }
    }

    /// The Pane, once what it shows was compared.
    pub open spec fn seen(
        self,
        foreground: Option<i32>,
        tail: Seq<char>,
        title: Seq<char>,
        dev_tail: Seq<char>,
    ) -> AgentPane {
        AgentPane {
            foreground_pid: foreground,
            last_evidence_hash: screen_hash(tail, title),
            last_dev_server_hash: text_hash(dev_tail),
            ..self
        }
    }

    /// Compare a Pane's screen, title, foreground process and recent output
    /// with what was last seen. Output as such is no evidence of work; it only
    /// decides when the screen is worth reading again.
    pub fn note_output(
        &mut self,
        foreground: Option<i32>,
        tail: &str,
        title: &str,
        dev_tail: &str,
    ) -> (news: OutputNews)
        ensures
            news == old(self).output_news(foreground, tail@, title@, dev_tail@),
            *final(self) == old(self).seen(foreground, tail@, title@, dev_tail@),
    {
        let process_changed = foreground != self.foreground_pid;
        let title_hash: u64 = evidence_hash(title);
        let hash: u64 = evidence_hash(tail) ^ ((title_hash << 1) | (title_hash >> 63));
        let evidence = process_changed || hash != self.last_evidence_hash;
        if evidence {
            self.foreground_pid = foreground;
            self.last_evidence_hash = hash;
        }
        let dev_hash: u64 = evidence_hash(dev_tail);
        let dev_server = dev_hash != self.last_dev_server_hash;
        if dev_server {
            self.last_dev_server_hash = dev_hash;
        }
        OutputNews { process_changed, evidence, dev_server }
    }
}

/// What one readiness turn of a PTY brought.
#[derive(Clone, Copy, Debug, PartialEq, Eq, Structural)]
pub struct PtyTurn {
    pub got_output: bool,
    pub eof: bool,
    pub budget_spent: bool,
    pub cwd_changed: bool,
    /// Some report said that the agent is ready for direction.
    pub cooperative_ready: bool,
    /// Some report said that the invocation is over.
    pub ended: bool,
    /// The fleet surfaces changed.
    pub agent_changed: bool,
    /// The foreground process is another one.
    pub process_changed: bool,
    /// The nested application's input modes changed.
    pub nested_changed: bool,
    /// The Pane is the focused one of the active Tab.
    pub focused: bool,
}

impl PtyTurn {
    /// Gather one report's effect.
    pub fn absorb(&mut self, cooperative_ready: bool, effect: EventEffect)
        ensures
            *final(self) == (PtyTurn {
                cooperative_ready: old(self).cooperative_ready || cooperative_ready,
                ended: old(self).ended || effect.ended,
                agent_changed: old(self).agent_changed || effect.changed,
                ..*old(self)
            }),
    {
        self.cooperative_ready = self.cooperative_ready || cooperative_ready;
        self.ended = self.ended || effect.ended;
        self.agent_changed = self.agent_changed || effect.changed;
    }
}

/// The Pane went through `states` as the reports were applied in order.
pub open spec fn events_done(
    states: Seq<AgentPane>,
    events: Seq<AgentEvent>,
    foreground: Option<i32>,
    now: u64,
    timestamp_ms: u64,
    effects: Seq<EventEffect>,
) -> bool {
    &&& states.len() == events.len() + 1
    &&& effects.len() == events.len()
    &&& forall|k: int|
        0 <= k < events.len() ==> event_done(
            states[k],
            states[k + 1],
            #[trigger] events[k],
            foreground,
            now,
            timestamp_ms,
            effects[k],
        )
}

/// Some report says that the agent is ready.
pub open spec fn some_ready(events: Seq<AgentEvent>) -> bool {
    exists|k: int| 0 <= k < events.len() && (#[trigger] events[k]).cooperative_ready
}

/// Some report ended the invocation.
pub open spec fn some_ended(effects: Seq<EventEffect>) -> bool {
    exists|k: int| 0 <= k < effects.len() && (#[trigger] effects[k]).ended
}

/// Some report changed the fleet surfaces.
pub open spec fn some_changed(effects: Seq<EventEffect>) -> bool {
    exists|k: int| 0 <= k < effects.len() && (#[trigger] effects[k]).changed
}

impl AgentPane {
    /// Whether the foreground program gave the terminal back to the Pane's shell
    /// without leaving its own screen, so that the shell's is brought back.
    pub fn recovers_shell_screen(
        &self,
        foreground: Option<i32>,
        shell_in_front: bool,
        alt_screen: bool,
    ) -> (recovers: bool)
        ensures
            recovers == (foreground != self.foreground_pid && shell_in_front && alt_screen),
    {
        foreground != self.foreground_pid && shell_in_front && alt_screen
    }

    /// Apply the reports of one turn in order, and gather what they ask for.
    pub fn apply_agent_events(
        &mut self,
        events: Vec<AgentEvent>,
        turn: &mut PtyTurn,
        foreground: Option<i32>,
        now: u64,
        timestamp_ms: u64,
    ) -> (effects: Vec<EventEffect>)
        ensures
            exists|states: Seq<AgentPane>|
                {
                    &&& #[trigger] events_done(
                        states,
                        events@,
                        foreground,
                        now,
                        timestamp_ms,
                        effects@,
                    )
                    &&& states[0] == *old(self)
                    &&& states.last() == *final(self)
                },
            *final(turn) == (PtyTurn {
                cooperative_ready: old(turn).cooperative_ready || some_ready(events@),
                ended: old(turn).ended || some_ended(effects@),
                agent_changed: old(turn).agent_changed || some_changed(effects@),
                ..*old(turn)
            }),
    {
        let ghost given = events@;
        let ghost mut states: Seq<AgentPane> = seq![*self];
        let ghost mut i: nat = 0;
        let mut rest = events;
        let mut effects: Vec<EventEffect> = Vec::new();
        assert(given.take(0) =~= Seq::<AgentEvent>::empty());
        assert(rest@ =~= given.skip(0));
        while rest.len() > 0
            invariant
                i <= given.len(),
                rest@ == given.skip(i as int),
                events_done(
                    states,
                    given.take(i as int),
                    foreground,
                    now,
                    timestamp_ms,
                    effects@,
                ),
                states[0] == *old(self),
                states.last() == *self,
                *turn == (PtyTurn {
                    cooperative_ready: old(turn).cooperative_ready || some_ready(
                        given.take(i as int),
                    ),
                    ended: old(turn).ended || some_ended(effects@),
                    agent_changed: old(turn).agent_changed || some_changed(effects@),
                    ..*old(turn)
                }),
            decreases rest@.len(),
        {
            let ghost before = effects@;
            let ghost passed = given.take(i as int);
            let event = rest.remove(0);
            let ready = event.cooperative_ready;
            let ghost said = event;
            let effect = self.apply_agent_event(event, foreground, now, timestamp_ms);
            turn.absorb(ready, effect);
            effects.push(effect);
            proof {
                let next = given.take(i as int + 1);
                assert(next =~= passed.push(said));
                assert(rest@ =~= given.skip(i as int + 1));
                let grown = states.push(*self);
                assert forall|k: int| 0 <= k < next.len() implies event_done(
                    grown[k],
                    grown[k + 1],
                    #[trigger] next[k],
                    foreground,
                    now,
                    timestamp_ms,
                    effects@[k],
                ) by {
                    if k < i {
                        assert(passed[k] == next[k]);
                        assert(before[k] == effects@[k]);
                    }
                }
                assert(some_ready(next) == (some_ready(passed) || ready)) by {
                    if ready {
                        assert(next[i as int].cooperative_ready);
                    }
                    if some_ready(passed) {
                        let k = choose|k: int|
                            0 <= k < passed.len() && (#[trigger] passed[k]).cooperative_ready;
                        assert(next[k].cooperative_ready);
                    }
                    if some_ready(next) {
                        let k = choose|k: int|
                            0 <= k < next.len() && (#[trigger] next[k]).cooperative_ready;
                        if k < i {
                            assert(passed[k].cooperative_ready);
                        }
                    }
                }
                lemma_gathered(before, effect);
                states = grown;
                i = i + 1;
            }
        }
        assert(given.take(i as int) =~= given);
        effects
    }
}

proof fn lemma_gathered(before: Seq<EventEffect>, effect: EventEffect)
    ensures
        some_ended(before.push(effect)) == (some_ended(before) || effect.ended),
        some_changed(before.push(effect)) == (some_changed(before) || effect.changed),
{
    let next = before.push(effect);
    let last = before.len() as int;
    assert(next[last] == effect);
    if some_ended(before) {
        let k = choose|k: int| 0 <= k < before.len() && (#[trigger] before[k]).ended;
        assert(next[k].ended);
    }
    if some_ended(next) {
        let k = choose|k: int| 0 <= k < next.len() && (#[trigger] next[k]).ended;
        if k < last {
            assert(before[k].ended);
        }
    }
    if some_changed(before) {
        let k = choose|k: int| 0 <= k < before.len() && (#[trigger] before[k]).changed;
        assert(next[k].changed);
    }
    if some_changed(next) {
        let k = choose|k: int| 0 <= k < next.len() && (#[trigger] next[k]).changed;
        if k < last {
            assert(before[k].changed);
        }
    }
}

/// Which checkpoint a turn asks for.
#[derive(Clone, Copy, Debug, PartialEq, Eq, Structural)]
pub enum Checkpoint {
    Nothing,
    /// Within the bounded cadence.
    Later,
    /// At once: a directory change is a semantic one.
    Now,
}

/// What becomes of queued direction for a Pane.
#[derive(Clone, Copy, Debug, PartialEq, Eq, Structural)]
pub enum DirectionFate {
    Keep,
    /// All of it is stale: no invocation is left.
    CancelAll,
    /// What was meant for another invocation is stale.
    CancelOthers,
}

/// What the server does after a turn, in this order.
#[derive(Clone, Copy, Debug, PartialEq, Eq, Structural)]
pub struct PtyPlan {
    pub checkpoint: Checkpoint,
    pub direction: DirectionFate,
    pub deliver_direction: bool,
    pub defer_read: bool,
    pub sync_titles: bool,
    pub service_waits: bool,
    pub broadcast_nested: bool,
    pub paint_output: bool,
    pub close: bool,
    pub repaint_chrome: bool,
}

/// What follows a turn. The last output of a Pane that closes is still painted
/// first, so that an application's exit-time restore is not lost.
pub open spec fn pty_plan(turn: PtyTurn) -> PtyPlan {
    PtyPlan {
        checkpoint: if turn.cwd_changed {
            Checkpoint::Now
        } else if turn.got_output {
            Checkpoint::Later
        } else {
            Checkpoint::Nothing
        },
        direction: if turn.ended {
            DirectionFate::CancelAll
        } else if turn.process_changed {
            DirectionFate::CancelOthers
        } else {
            DirectionFate::Keep
        },
        deliver_direction: turn.cooperative_ready && !turn.ended,
        defer_read: turn.budget_spent && !turn.eof,
        sync_titles: turn.got_output,
        service_waits: turn.got_output || turn.agent_changed,
        broadcast_nested: turn.nested_changed && turn.focused,
        paint_output: turn.got_output,
        close: turn.eof,
        repaint_chrome: turn.agent_changed && !turn.eof,
    }
}

/// Decide what follows a turn.
pub fn plan_pty_turn(turn: PtyTurn) -> (plan: PtyPlan)
    ensures
        plan == pty_plan(turn),
{
    PtyPlan {
        checkpoint: if turn.cwd_changed {
            Checkpoint::Now
        } else if turn.got_output {
            Checkpoint::Later
        } else {
            Checkpoint::Nothing
        },
        direction: if turn.ended {
            DirectionFate::CancelAll
        } else if turn.process_changed {
            DirectionFate::CancelOthers
        } else {
            DirectionFate::Keep
        },
        deliver_direction: turn.cooperative_ready && !turn.ended,
        defer_read: turn.budget_spent && !turn.eof,
        sync_titles: turn.got_output,
        service_waits: turn.got_output || turn.agent_changed,
        broadcast_nested: turn.nested_changed && turn.focused,
        paint_output: turn.got_output,
        close: turn.eof,
        repaint_chrome: turn.agent_changed && !turn.eof,
    }
}

/// What a turn of a PTY brought, before its screen is read.
#[derive(Debug)]
pub struct PtyBatch {
    pub got_output: bool,
    pub eof: bool,
    pub budget_spent: bool,
    /// The agents' reports among the output, in order.
    pub events: Vec<AgentEvent>,
    /// The process in the foreground of the terminal.
    pub foreground: Option<i32>,
    /// The directory that the shell reported last.
    pub reported: Option<String>,
    /// The Pane's own shell is in the foreground.
    pub shell_in_front: bool,
    pub alt_screen: bool,
    /// The Pane is the focused one of the active Tab.
    pub focused: bool,
}

impl PtyBatch {
    /// The turn, once the reports had these effects.
    pub open spec fn turn(self, effects: Seq<EventEffect>, cwd_changed: bool) -> PtyTurn {
        PtyTurn {
            got_output: self.got_output,
            eof: self.eof,
            budget_spent: self.budget_spent,
            cwd_changed,
            cooperative_ready: some_ready(self.events@),
            ended: some_ended(effects),
            agent_changed: some_changed(effects),
            process_changed: false,
            nested_changed: false,
            focused: self.focused,
        }
    }
}

/// A turn, as far as it is known before the screen is read.
#[derive(Debug)]
pub struct PtyStep {
    pub turn: PtyTurn,
    /// What each report asks of the host.
    pub effects: Vec<EventEffect>,
    /// The shell's screen is brought back first.
    pub recover: bool,
}

/// What a Pane shows at the end of a turn.
#[derive(Debug)]
pub struct PtyScreen {
    pub tail: String,
    pub title: String,
    pub recent: String,
    /// The nested application's input modes changed.
    pub nested_changed: bool,
}

impl AgentPane {
    /// Take a turn of the Pane's PTY: apply the reports in it, and follow the
    /// shell's directory. A turn without output leaves the directory alone.
    pub fn on_pty(
        &mut self,
        cwd: &mut Option<String>,
        batch: PtyBatch,
        now: u64,
        timestamp_ms: u64,
    ) -> (step: PtyStep)
        ensures
            exists|states: Seq<AgentPane>|
                {
                    &&& #[trigger] events_done(
                        states,
                        batch.events@,
                        batch.foreground,
                        now,
                        timestamp_ms,
                        step.effects@,
                    )
                    &&& states[0] == *old(self)
                    &&& states.last() == *final(self)
                },
            step.turn == batch.turn(
                step.effects@,
                text_of(*final(cwd)) != text_of(*old(cwd)),
            ),
            text_of(*final(cwd)) == if batch.got_output {
                advanced(text_of(*old(cwd)), text_of(batch.reported))
            } else {
                text_of(*old(cwd))
            },
            step.recover == (batch.got_output && batch.foreground != final(self).foreground_pid
                && batch.shell_in_front && batch.alt_screen),
    {
        let ghost given = batch;
        let mut turn = PtyTurn {
            got_output: batch.got_output,
            eof: batch.eof,
            budget_spent: batch.budget_spent,
            cwd_changed: false,
            cooperative_ready: false,
            ended: false,
            agent_changed: false,
            process_changed: false,
            nested_changed: false,
            focused: batch.focused,
        };
        let effects = self.apply_agent_events(
            batch.events,
            &mut turn,
            batch.foreground,
            now,
            timestamp_ms,
        );
        let ghost states = choose|states: Seq<AgentPane>|
            {
                &&& #[trigger] events_done(
                    states,
                    given.events@,
                    given.foreground,
                    now,
                    timestamp_ms,
                    effects@,
                )
                &&& states[0] == *old(self)
                &&& states.last() == *self
            };
        let mut recover = false;
        if batch.got_output {
            turn.cwd_changed = match &batch.reported {
                Some(uri) => update_working_directory(cwd, Some(uri.as_str())),
                None => update_working_directory(cwd, None),
            };
            recover = self.recovers_shell_screen(
                batch.foreground,
                batch.shell_in_front,
                batch.alt_screen,
            );
        }
        let step = PtyStep { turn, effects, recover };
        assert(states[0] == *old(self));
        assert(states.last() == *self);
        assert(events_done(
            states,
            given.events@,
            given.foreground,
            now,
            timestamp_ms,
            step.effects@,
        ));
        step
    }

    /// End a turn with what the screen shows, and decide what follows. Without
    /// output nothing is compared.
    pub fn finish_pty(
        &mut self,
        turn: PtyTurn,
        foreground: Option<i32>,
        screen: &PtyScreen,
    ) -> (outcome: (OutputNews, PtyPlan))
        ensures
            outcome.0 == if turn.got_output {
                old(self).output_news(foreground, screen.tail@, screen.title@, screen.recent@)
            } else {
                OutputNews { process_changed: false, evidence: false, dev_server: false }
            },
            *final(self) == if turn.got_output {
                old(self).seen(foreground, screen.tail@, screen.title@, screen.recent@)
            } else {
                *old(self)
            },
            outcome.1 == pty_plan(
                PtyTurn {
                    process_changed: outcome.0.process_changed,
                    nested_changed: screen.nested_changed,
                    ..turn
                },
            ),
    {
        let mut turn = turn;
        let mut news = OutputNews { process_changed: false, evidence: false, dev_server: false };
        if turn.got_output {
            news = self.note_output(
                foreground,
                screen.tail.as_str(),
                screen.title.as_str(),
                screen.recent.as_str(),
            );
        }
        turn.process_changed = news.process_changed;
        turn.nested_changed = screen.nested_changed;
        (news, plan_pty_turn(turn))
    }
}

} // verus!
