//! What an agent in a Pane is doing, and how evidence changes it.
//!
//! Evidence differs in authority: a cooperative hook outranks what the screen
//! shows, and the kernel outranks both. A weaker verdict is held back for a
//! while, its dwell, before it may replace what is known.
use crate::text::{push_signed, push_text, same_text, signed_decimal};
use vstd::prelude::*;

verus! {

/// What an agent is doing.
#[derive(Clone, Copy, Debug, PartialEq, Eq, Structural)]
pub enum AgentStatus {
    Unknown,
    Starting,
    Working,
    Tool,
    Idle,
    Permission,
    Question,
    Error,
    Exited,
}

impl AgentStatus {
    /// The agent waits for a human.
    pub open spec fn waits(self) -> bool {
        self == AgentStatus::Permission || self == AgentStatus::Question
    }

    /// The agent was busy.
    pub open spec fn active(self) -> bool {
        self == AgentStatus::Working || self == AgentStatus::Tool
    }

    /// Whether the agent waits for a human.
    pub fn needs_human(self) -> (waits: bool)
        ensures
            waits == self.waits(),
    {
        matches!(self, AgentStatus::Permission | AgentStatus::Question)
    }
}

/// How much a piece of evidence weighs, from the weakest on.
#[derive(Clone, Copy, Debug, PartialEq, Eq, Structural)]
pub enum DetectionAuthority {
    /// What the screen shows.
    Grid,
    /// Which process runs.
    Process,
    /// What the agent's own log says.
    Log,
    /// What the agent reports through its hooks.
    Osc777,
    /// What the kernel reports.
    KernelExit,
}

impl DetectionAuthority {
    /// The place in the order of authority.
    pub open spec fn level(self) -> int {
        match self {
            DetectionAuthority::Grid => 0,
            DetectionAuthority::Process => 1,
            DetectionAuthority::Log => 2,
            DetectionAuthority::Osc777 => 3,
            DetectionAuthority::KernelExit => 4,
        }
    }

    /// The place in the order of authority.
    pub fn rank(self) -> (rank: u8)
        ensures
            rank == self.level(),
    {
        match self {
            DetectionAuthority::Grid => 0,
            DetectionAuthority::Process => 1,
            DetectionAuthority::Log => 2,
            DetectionAuthority::Osc777 => 3,
            DetectionAuthority::KernelExit => 4,
        }
    }
}

/// Where a piece of evidence came from.
#[derive(Clone, Copy, Debug, PartialEq, Eq, Structural)]
pub enum DetectionSource {
    /// There is no evidence.
    Absent,
    Launch,
    Cooperative,
    Kernel,
    Screen,
    Log,
}

/// The rule and circumstances behind a piece of evidence.
#[derive(Debug)]
pub struct DetectionProvenance {
    pub source: DetectionSource,
    pub manifest_version: Option<String>,
    pub matched_rule: Option<String>,
    pub confidence: u8,
    /// How long the rule wants its verdict held back.
    pub dwell_ms: Option<u64>,
    pub precedence: i32,
    pub capabilities: u32,
    pub invocation_pid: Option<i32>,
    pub timestamp_ms: u64,
}

/// Two optional texts are the same.
pub open spec fn same_option(a: Option<String>, b: Option<String>) -> bool {
    match (a, b) {
        (Some(x), Some(y)) => x@ == y@,
        (None, None) => true,
        _ => false,
    }
}

fn same_option_text(a: &Option<String>, b: &Option<String>) -> (same: bool)
    ensures
        same == same_option(*a, *b),
{
    match (a, b) {
        (Some(x), Some(y)) => same_text(x.as_str(), y.as_str()),
        (None, None) => true,
        _ => false,
    }
}

fn copy_option(text: &Option<String>) -> (out: Option<String>)
    ensures
        out == *text,
{
    match text {
        Some(t) => Some(t.clone()),
        None => None,
    }
}

impl DetectionProvenance {
    /// The evidence rests on the same rule and circumstances, whenever it came.
    pub open spec fn same_as(self, other: DetectionProvenance) -> bool {
        &&& self.source == other.source
        &&& same_option(self.manifest_version, other.manifest_version)
        &&& same_option(self.matched_rule, other.matched_rule)
        &&& self.confidence == other.confidence
        &&& self.dwell_ms == other.dwell_ms
        &&& self.precedence == other.precedence
        &&& self.capabilities == other.capabilities
        &&& self.invocation_pid == other.invocation_pid
    }

    /// Evidence that rests on no rule.
    pub open spec fn plain(
        source: DetectionSource,
        timestamp_ms: u64,
        invocation_pid: Option<i32>,
    ) -> DetectionProvenance {
        DetectionProvenance {
            source,
            manifest_version: None,
            matched_rule: None,
            confidence: 100,
            dwell_ms: None,
            precedence: 0,
            capabilities: 0,
            invocation_pid,
            timestamp_ms,
        }
    }

    /// Evidence that rests on no rule: a launch, a cooperative report or a
    /// kernel event.
    pub fn direct(source: DetectionSource, timestamp_ms: u64, invocation_pid: Option<i32>) -> (out:
        DetectionProvenance)
        ensures
            out == DetectionProvenance::plain(source, timestamp_ms, invocation_pid),
    {
        DetectionProvenance {
            source,
            manifest_version: None,
            matched_rule: None,
            confidence: 100,
            dwell_ms: None,
            precedence: 0,
            capabilities: 0,
            invocation_pid,
            timestamp_ms,
        }
    }

    /// A copy.
    pub fn copy(&self) -> (out: DetectionProvenance)
        ensures
            out == *self,
    {
        DetectionProvenance {
            source: self.source,
            manifest_version: copy_option(&self.manifest_version),
            matched_rule: copy_option(&self.matched_rule),
            confidence: self.confidence,
            dwell_ms: self.dwell_ms,
            precedence: self.precedence,
            capabilities: self.capabilities,
            invocation_pid: self.invocation_pid,
            timestamp_ms: self.timestamp_ms,
        }
    }
}

/// Whether two pieces of evidence rest on the same rule and circumstances.
pub fn same_detection_provenance(left: &DetectionProvenance, right: &DetectionProvenance) -> (same:
    bool)
    ensures
        same == left.same_as(*right),
{
    left.source == right.source && same_option_text(
        &left.manifest_version,
        &right.manifest_version,
    ) && same_option_text(&left.matched_rule, &right.matched_rule) && left.confidence
        == right.confidence && left.dwell_ms == right.dwell_ms && left.precedence
        == right.precedence && left.capabilities == right.capabilities && left.invocation_pid
        == right.invocation_pid
}

/// How long a cooperative busy state may stand against a screen that keeps
/// saying idle.
pub const STALE_COOPERATIVE_ACTIVITY_MS: u64 = 30_000;

/// How long a verdict is held back when its rule does not say.
pub open spec fn dwell_of(status: AgentStatus, idle_dwell_ms: u64) -> u64 {
    match status {
        AgentStatus::Permission | AgentStatus::Question => 5_000,
        AgentStatus::Idle => idle_dwell_ms,
        AgentStatus::Error | AgentStatus::Exited => 2_000,
        _ => 0,
    }
}

/// How long a verdict is held back when its rule does not say, in
/// milliseconds. Idle rests on a screen verdict, so its dwell, which the
/// provider rules set, only has to outlast one redraw flicker.
pub fn detection_dwell(status: AgentStatus, idle_dwell_ms: u64) -> (dwell_ms: u64)
    ensures
        dwell_ms == dwell_of(status, idle_dwell_ms),
{
    match status {
        AgentStatus::Permission | AgentStatus::Question => 5_000,
        AgentStatus::Idle => idle_dwell_ms,
        AgentStatus::Error | AgentStatus::Exited => 2_000,
        AgentStatus::Unknown
        | AgentStatus::Starting
        | AgentStatus::Working
        | AgentStatus::Tool => 0,
    }
}

/// An idle verdict stands against a cooperative busy state.
pub open spec fn stale(
    current: AgentStatus,
    authority: DetectionAuthority,
    candidate: AgentStatus,
) -> bool {
    authority.level() >= DetectionAuthority::Log.level() && current.active() && candidate
        == AgentStatus::Idle
}

/// Whether an idle verdict may replace a cooperative busy state once it has
/// stood long enough: a connector whose idle hook failed would otherwise pin
/// the Pane at work until the agent exits.
pub fn stale_cooperative_fallback(
    current_status: AgentStatus,
    current_authority: DetectionAuthority,
    candidate_status: AgentStatus,
) -> (is_stale: bool)
    ensures
        is_stale == stale(current_status, current_authority, candidate_status),
{
    current_authority.rank() >= DetectionAuthority::Log.rank() && matches!(
        current_status,
        AgentStatus::Working | AgentStatus::Tool
    ) && candidate_status == AgentStatus::Idle
}

/// A held verdict may replace what is known.
pub open spec fn can_apply(
    current: AgentStatus,
    current_authority: DetectionAuthority,
    candidate: AgentStatus,
    candidate_authority: DetectionAuthority,
) -> bool {
    ||| candidate_authority.level() >= current_authority.level()
    ||| candidate.waits()
    ||| current == AgentStatus::Starting
    ||| stale(current, current_authority, candidate)
}

/// Whether a verdict may replace what is known: it is not weaker, or the agent
/// waits for a human, or it was only starting, or its busy state went stale.
pub fn detection_candidate_can_apply(
    current_status: AgentStatus,
    current_authority: DetectionAuthority,
    candidate_status: AgentStatus,
    candidate_authority: DetectionAuthority,
) -> (can: bool)
    ensures
        can == can_apply(
            current_status,
            current_authority,
            candidate_status,
            candidate_authority,
        ),
{
    candidate_authority.rank() >= current_authority.rank() || candidate_status.needs_human()
        || current_status == AgentStatus::Starting || stale_cooperative_fallback(
        current_status,
        current_authority,
        candidate_status,
    )
}

/// The agent bound to a Pane.
#[derive(Debug)]
pub struct PaneAgent {
    pub id: String,
    pub status: AgentStatus,
    pub authority: DetectionAuthority,
    pub evidence: String,
    pub provenance: DetectionProvenance,
    pub foreground_pid: Option<i32>,
    /// When this run was first bound, in milliseconds of the server clock.
    /// Status changes keep it, so that lists do not reorder.
    pub started_at: u64,
    pub session_id: Option<String>,
    /// How to resume the session, where the agent said so.
    pub resume_command: Option<Vec<String>>,
}

/// A verdict that is held back.
#[derive(Debug)]
pub struct DetectionCandidate {
    pub status: AgentStatus,
    pub authority: DetectionAuthority,
    pub evidence: String,
    pub provenance: DetectionProvenance,
    pub dwell_ms: u64,
    pub since: u64,
}

/// How it is known that an agent left.
#[derive(Clone, Copy, Debug, PartialEq, Eq, Structural)]
pub enum Departure {
    /// The agent said so itself.
    SessionEnd,
    /// The kernel reported this process gone.
    ProcessExit(i32),
}

impl Departure {
    /// What the evidence says in words.
    pub open spec fn words(self) -> Seq<char> {
        match self {
            Departure::SessionEnd => "cooperative OSC 777 session end"@,
            Departure::ProcessExit(pid) => "kernel reported process "@ + signed_decimal(
                pid as int,
            ) + " exit"@,
        }
    }

    /// What the evidence says in words.
    pub fn text(self) -> (text: String)
        ensures
            text@ == self.words(),
    {
        match self {
            Departure::SessionEnd => "cooperative OSC 777 session end".to_owned(),
            Departure::ProcessExit(pid) => {
                let mut text = "kernel reported process ".to_owned();
                push_signed(&mut text, pid as i64);
                push_text(&mut text, " exit");
                text
            },
        }
    }
}

/// The last thing known of an agent that left.
#[derive(Debug)]
pub struct DetectionRecord {
    pub agent: String,
    pub status: AgentStatus,
    pub authority: DetectionAuthority,
    pub evidence: Departure,
    pub foreground_pid: Option<i32>,
    pub provenance: DetectionProvenance,
}

/// What is known of the agent in one Pane.
#[derive(Debug)]
pub struct AgentPane {
    pub agent: Option<PaneAgent>,
    pub foreground_pid: Option<i32>,
    pub candidate: Option<DetectionCandidate>,
    pub last_detection: Option<DetectionRecord>,
    /// The arguments of the present invocation, where there are any.
    pub launch_args: Option<Vec<String>>,
    pub last_evidence_hash: u64,
    pub last_dev_server_hash: u64,
}

impl AgentPane {
    /// The status that changes are measured against.
    pub open spec fn status(self) -> AgentStatus {
        match self.agent {
            Some(agent) => agent.status,
            None => AgentStatus::Unknown,
        }
    }

    /// The status that changes are measured against.
    pub fn current_status(&self) -> (status: AgentStatus)
        ensures
            status == self.status(),
    {
        match &self.agent {
            Some(agent) => agent.status,
            None => AgentStatus::Unknown,
        }
    }
}

/// A verdict on a Pane, as the runtime reports it.
#[derive(Debug)]
pub struct Verdict {
    pub foreground_pid: Option<i32>,
    pub agent: Option<String>,
    pub status: Option<AgentStatus>,
    pub authority: DetectionAuthority,
    pub evidence: String,
    pub provenance: DetectionProvenance,
}

/// What applying a verdict asks of the host.
#[derive(Clone, Copy, Debug, PartialEq, Eq, Structural)]
pub struct DetectionEffect {
    /// Another agent was bound.
    pub bound: bool,
    /// A status to record.
    pub recorded: Option<AgentStatus>,
    /// The status changed from this one.
    pub left: Option<AgentStatus>,
    /// The fleet surfaces changed.
    pub changed: bool,
}

impl DetectionEffect {
    pub open spec fn none(bound: bool) -> DetectionEffect {
        DetectionEffect { bound, recorded: None, left: None, changed: bound }
    }
}

/// A verdict binds another agent: none is bound yet, or a different one with no
/// more authority.
pub open spec fn rebinds(pane: AgentPane, v: Verdict) -> bool {
    match (v.agent, pane.agent) {
        (None, _) => false,
        (Some(_), None) => true,
        (Some(id), Some(current)) => current.id@ != id@ && v.authority.level()
            >= current.authority.level(),
    }
}

/// The Pane after the binding part of a verdict.
pub open spec fn bound(pane: AgentPane, v: Verdict, now: u64) -> AgentPane {
    let agent = if rebinds(pane, v) {
        Some(
            PaneAgent {
                id: v.agent->0,
                status: match v.status {
                    Some(status) => status,
                    None => AgentStatus::Starting,
                },
                authority: v.authority,
                evidence: v.evidence,
                provenance: v.provenance,
                foreground_pid: v.foreground_pid,
                started_at: now,
                session_id: None,
                resume_command: None,
            },
        )
    } else {
        match (v.agent, pane.agent) {
            (Some(_), Some(agent)) => Some(
                PaneAgent {
                    foreground_pid: if v.foreground_pid is Some {
                        v.foreground_pid
                    } else {
                        agent.foreground_pid
                    },
                    ..agent
                },
            ),
            _ => pane.agent,
        }
    };
    AgentPane { agent, foreground_pid: v.foreground_pid, ..pane }
}

/// A weaker verdict that may not touch the bound agent.
pub open spec fn outranked(agent: PaneAgent, v: Verdict, status: AgentStatus) -> bool {
    &&& v.authority.level() < agent.authority.level()
    &&& !status.waits()
    &&& agent.status != AgentStatus::Starting
    &&& !stale(agent.status, agent.authority, status)
}

/// A verdict that says nothing new.
pub open spec fn repeats(agent: PaneAgent, v: Verdict, status: AgentStatus) -> bool {
    &&& agent.status == status
    &&& agent.authority == v.authority
    &&& agent.evidence@ == v.evidence@
    &&& agent.provenance.same_as(v.provenance)
}

/// How long a verdict is held back.
pub open spec fn held_for(
    agent: PaneAgent,
    v: Verdict,
    status: AgentStatus,
    idle_dwell_ms: u64,
) -> u64 {
    let dwell = match v.provenance.dwell_ms {
        Some(ms) => ms,
        None => dwell_of(status, idle_dwell_ms),
    };
    if stale(agent.status, agent.authority, status) && v.authority.level()
        < agent.authority.level() && dwell < STALE_COOPERATIVE_ACTIVITY_MS {
        STALE_COOPERATIVE_ACTIVITY_MS
    } else {
        dwell
    }
}

/// The agent after a verdict was believed.
pub open spec fn believed(agent: PaneAgent, v: Verdict, status: AgentStatus) -> PaneAgent {
    PaneAgent {
        status,
        authority: v.authority,
        evidence: v.evidence,
        provenance: v.provenance,
        ..agent
    }
}

/// The verdict that is held back. One that was held already keeps its start.
pub open spec fn held(
    before: Option<DetectionCandidate>,
    v: Verdict,
    status: AgentStatus,
    dwell_ms: u64,
    now: u64,
) -> DetectionCandidate {
    let since = match before {
        Some(c) => if c.status == status && c.authority == v.authority && c.evidence@
            == v.evidence@ && c.provenance.same_as(v.provenance) && c.dwell_ms == dwell_ms {
            c.since
        } else {
            now
        },
        None => now,
    };
    DetectionCandidate {
        status,
        authority: v.authority,
        evidence: v.evidence,
        provenance: v.provenance,
        dwell_ms,
        since,
    }
}

/// The Pane after a verdict, and what that asks of the host.
pub open spec fn detected(pane: AgentPane, v: Verdict, now: u64, idle_dwell_ms: u64) -> (
    AgentPane,
    DetectionEffect,
) {
    let mid = bound(pane, v, now);
    let rebound = rebinds(pane, v);
    match (v.status, mid.agent) {
        (Some(status), Some(agent)) => {
            let dwell = held_for(agent, v, status, idle_dwell_ms);
            if outranked(agent, v, status) {
                (mid, DetectionEffect { changed: false, ..DetectionEffect::none(rebound) })
            } else if repeats(agent, v, status) && !rebound {
                (
                    AgentPane {
                        agent: Some(PaneAgent { provenance: v.provenance, ..agent }),
                        ..mid
                    },
                    DetectionEffect::none(false),
                )
            } else if dwell == 0 || v.authority.level() >= DetectionAuthority::Osc777.level() {
                (
                    AgentPane { agent: Some(believed(agent, v, status)), candidate: None, ..mid },
                    DetectionEffect {
                        bound: rebound,
                        recorded: if pane.status() != status || rebound {
                            Some(status)
                        } else {
                            None
                        },
                        left: if pane.status() != status {
                            Some(pane.status())
                        } else {
                            None
                        },
                        changed: true,
                    },
                )
            } else {
                (
                    AgentPane {
                        candidate: Some(held(mid.candidate, v, status, dwell, now)),
                        ..mid
                    },
                    DetectionEffect::none(rebound),
                )
            }
        },
        (None, _) => (mid, DetectionEffect::none(rebound)),
        (Some(_), None) => (mid, DetectionEffect { changed: false, ..DetectionEffect::none(rebound) }),
    }
}

impl AgentPane {
    fn bind_verdict(&mut self, v: &Verdict, now: u64) -> (rebound: bool)
        ensures
            *final(self) == bound(*old(self), *v, now),
            rebound == rebinds(*old(self), *v),
    {
        self.foreground_pid = v.foreground_pid;
        let Some(id) = &v.agent else {
            return false;
        };
        let replace = match &self.agent {
            None => true,
            Some(current) => !same_text(current.id.as_str(), id.as_str()) && v.authority.rank()
                >= current.authority.rank(),
        };
        if replace {
            self.agent = Some(
                PaneAgent {
                    id: id.clone(),
                    status: match v.status {
                        Some(status) => status,
                        None => AgentStatus::Starting,
                    },
                    authority: v.authority,
                    evidence: v.evidence.clone(),
                    provenance: v.provenance.copy(),
                    foreground_pid: v.foreground_pid,
                    started_at: now,
                    session_id: None,
                    resume_command: None,
                },
            );
            true
        } else {
            if let Some(mut agent) = self.agent.take() {
                if v.foreground_pid.is_some() {
                    agent.foreground_pid = v.foreground_pid;
                }
                self.agent = Some(agent);
            }
            false
        }
    }

    /// Apply what was detected. The agent it names is bound; its status is believed at once,
    /// held back, or dropped.
    pub fn apply_agent_detection(&mut self, v: Verdict, now: u64, idle_dwell_ms: u64) -> (effect:
        DetectionEffect)
        ensures
            (*final(self), effect) == detected(*old(self), v, now, idle_dwell_ms),
    {
        let previous = self.current_status();
        let rebound = self.bind_verdict(&v, now);
        let none = DetectionEffect { bound: rebound, recorded: None, left: None, changed: rebound };
        let Some(status) = v.status else {
            return none;
        };
        let Some(mut agent) = self.agent.take() else {
            return DetectionEffect { bound: rebound, recorded: None, left: None, changed: false };
        };
        let stale_fallback = stale_cooperative_fallback(agent.status, agent.authority, status);
        let weaker = v.authority.rank() < agent.authority.rank();
        if weaker && !status.needs_human() && agent.status != AgentStatus::Starting
            && !stale_fallback {
            self.agent = Some(agent);
            return DetectionEffect { bound: rebound, recorded: None, left: None, changed: false };
        }
        if agent.status == status && agent.authority == v.authority && same_text(
            agent.evidence.as_str(),
            v.evidence.as_str(),
        ) && same_detection_provenance(&agent.provenance, &v.provenance) && !rebound {
            agent.provenance = v.provenance;
            self.agent = Some(agent);
            return DetectionEffect { bound: false, recorded: None, left: None, changed: false };
        }
        let mut dwell: u64 = match v.provenance.dwell_ms {
            Some(ms) => ms,
            None => detection_dwell(status, idle_dwell_ms),
        };
        if stale_fallback && weaker && dwell < STALE_COOPERATIVE_ACTIVITY_MS {
            dwell = STALE_COOPERATIVE_ACTIVITY_MS;
        }
        if dwell == 0 || v.authority.rank() >= DetectionAuthority::Osc777.rank() {
            agent.status = status;
            agent.authority = v.authority;
            agent.evidence = v.evidence;
            agent.provenance = v.provenance;
            self.agent = Some(agent);
            self.candidate = None;
            return DetectionEffect {
                bound: rebound,
                recorded: if previous != status || rebound {
                    Some(status)
                } else {
                    None
                },
                left: if previous != status {
                    Some(previous)
                } else {
                    None
                },
                changed: true,
            };
        }
        self.agent = Some(agent);
        let since: u64 = match &self.candidate {
            Some(c) => if c.status == status && c.authority == v.authority && same_text(
                c.evidence.as_str(),
                v.evidence.as_str(),
            ) && same_detection_provenance(&c.provenance, &v.provenance) && c.dwell_ms == dwell {
                c.since
            } else {
                now
            },
            None => now,
        };
        self.candidate = Some(
            DetectionCandidate {
                status,
                authority: v.authority,
                evidence: v.evidence,
                provenance: v.provenance,
                dwell_ms: dwell,
                since,
            },
        );
        none
    }
}

/// When a held verdict falls due.
pub open spec fn due_at(c: DetectionCandidate) -> u64 {
    if c.since + c.dwell_ms > u64::MAX {
        u64::MAX
    } else {
        (c.since + c.dwell_ms) as u64
    }
}

/// A change of status.
#[derive(Clone, Copy, Debug, PartialEq, Eq, Structural)]
pub struct Transition {
    pub previous: AgentStatus,
    pub status: AgentStatus,
}

/// What the end of a dwell did.
#[derive(Clone, Copy, Debug, PartialEq, Eq, Structural)]
pub struct SettleEffect {
    pub transition: Option<Transition>,
    pub changed: bool,
}

/// The Pane once its held verdict fell due, and what that asks of the host.
pub open spec fn settled(pane: AgentPane, now: u64) -> (AgentPane, SettleEffect) {
    let nothing = SettleEffect { transition: None, changed: false };
    match pane.candidate {
        Some(c) if now >= due_at(c) => {
            let mid = AgentPane { candidate: None, ..pane };
            match pane.agent {
                Some(agent) if can_apply(agent.status, agent.authority, c.status, c.authority) => {
                    let next = PaneAgent {
                        status: c.status,
                        authority: c.authority,
                        evidence: c.evidence,
                        provenance: c.provenance,
                        ..agent
                    };
                    if agent.status != c.status || agent.authority != c.authority
                        || agent.evidence@ != c.evidence@ || !agent.provenance.same_as(
                        c.provenance,
                    ) {
                        (
                            AgentPane { agent: Some(next), ..mid },
                            SettleEffect {
                                transition: if agent.status != c.status {
                                    Some(Transition { previous: agent.status, status: c.status })
                                } else {
                                    None
                                },
                                changed: true,
                            },
                        )
                    } else {
                        (
                            AgentPane {
                                agent: Some(PaneAgent { provenance: c.provenance, ..agent }),
                                ..mid
                            },
                            nothing,
                        )
                    }
                },
                _ => (mid, nothing),
            }
        },
        _ => (pane, nothing),
    }
}

impl AgentPane {
    /// When the held verdict falls due, if one is held.
    pub fn detection_deadline(&self) -> (deadline: Option<u64>)
        ensures
            deadline == match self.candidate {
                Some(c) => Some(due_at(c)),
                None => None,
            },
    {
        match &self.candidate {
            Some(c) => Some(c.since.saturating_add(c.dwell_ms)),
            None => None,
        }
    }

    /// Believe the held verdict once it is due and may still replace what is
    /// known; drop it otherwise.
    pub fn flush_detection_due(&mut self, now: u64) -> (effect: SettleEffect)
        ensures
            (*final(self), effect) == settled(*old(self), now),
    {
        let nothing = SettleEffect { transition: None, changed: false };
        let Some(deadline) = self.detection_deadline() else {
            return nothing;
        };
        if now < deadline {
            return nothing;
        }
        let Some(c) = self.candidate.take() else {
            return nothing;
        };
        let Some(mut agent) = self.agent.take() else {
            return nothing;
        };
        if !detection_candidate_can_apply(agent.status, agent.authority, c.status, c.authority) {
            self.agent = Some(agent);
            return nothing;
        }
        if agent.status != c.status || agent.authority != c.authority || !same_text(
            agent.evidence.as_str(),
            c.evidence.as_str(),
        ) || !same_detection_provenance(&agent.provenance, &c.provenance) {
            let previous = agent.status;
            agent.status = c.status;
            agent.authority = c.authority;
            agent.evidence = c.evidence;
            agent.provenance = c.provenance;
            let transition = if previous != agent.status {
                Some(Transition { previous, status: agent.status })
            } else {
                None
            };
            self.agent = Some(agent);
            SettleEffect { transition, changed: true }
        } else {
            agent.provenance = c.provenance;
            self.agent = Some(agent);
            nothing
        }
    }
}

/// A verdict that no hook and no kernel gave never replaces one of more
/// authority at once, unless the agent waits for a human or was only starting:
/// what is known stays, and at most an idle verdict waits for its long dwell.
pub proof fn lemma_weaker_verdict_waits(
    pane: AgentPane,
    v: Verdict,
    now: u64,
    idle_dwell_ms: u64,
)
    requires
        pane.agent matches Some(agent) && v.authority.level() < agent.authority.level()
            && agent.status != AgentStatus::Starting,
        v.authority.level() < DetectionAuthority::Osc777.level(),
        v.status matches Some(status) && !status.waits(),
    ensures
        ({
            let out = detected(pane, v, now, idle_dwell_ms).0;
            &&& out.agent matches Some(agent) && agent.status == pane.status() && agent.authority
                == pane.agent->0.authority && agent.id == pane.agent->0.id
            &&& out.candidate == pane.candidate || (out.candidate matches Some(c) && c.dwell_ms
                >= STALE_COOPERATIVE_ACTIVITY_MS)
        }),
{
}

/// A held verdict that no longer outweighs what is known is dropped: when its
/// dwell ends, the agent is as it was.
pub proof fn lemma_outweighed_candidate_dropped(pane: AgentPane, now: u64)
    requires
        pane.agent matches Some(agent) && pane.candidate matches Some(c) && !can_apply(
            agent.status,
            agent.authority,
            c.status,
            c.authority,
        ) && now >= due_at(c),
    ensures
        settled(pane, now).0 == (AgentPane { candidate: None, ..pane }),
{
}

/// The kernel outweighs a hook, a hook outweighs the agent's log, the log the
/// process, and the process the screen.
pub proof fn lemma_authority_order()
    ensures
        DetectionAuthority::Grid.level() < DetectionAuthority::Process.level(),
        DetectionAuthority::Process.level() < DetectionAuthority::Log.level(),
        DetectionAuthority::Log.level() < DetectionAuthority::Osc777.level(),
        DetectionAuthority::Osc777.level() < DetectionAuthority::KernelExit.level(),
{
}

/// A verdict that nothing outweighs, and that is not held back, is believed at
/// once: the Pane has its status, and a change is recorded and reported as one.
pub proof fn lemma_verdict_believed_at_once(
    pane: AgentPane,
    v: Verdict,
    now: u64,
    idle_dwell_ms: u64,
)
    requires
        v.status is Some,
        pane.agent is Some || v.agent is Some,
        pane.agent matches Some(agent) ==> v.authority.level() >= agent.authority.level()
            || v.status->0 is Permission || v.status->0 is Question || agent.status is Starting,
        v.authority is Osc777 || v.authority is KernelExit || v.provenance.dwell_ms == Some(0u64)
            || (v.provenance.dwell_ms is None && (v.status->0 is Working || v.status->0 is Tool
            || v.status->0 is Starting || v.status->0 is Unknown)),
    ensures
        ({
            let (out, effect) = detected(pane, v, now, idle_dwell_ms);
            &&& out.agent matches Some(agent)
            &&& Some(agent.status) == v.status
            &&& agent.authority == v.authority
            &&& agent.evidence@ == v.evidence@
            &&& agent.provenance == v.provenance
            &&& out.status() == v.status->0
            &&& pane.status() != v.status->0 ==> {
                &&& effect.recorded == v.status
                &&& effect.left == Some(pane.status())
                &&& effect.changed
                &&& out.candidate is None
            }
        }),
{
}

/// What is recorded is so: a recorded status is the verdict's and the Pane has
/// it, and a Pane is said to have left a status exactly where it had it and has
/// it no longer. Where nothing is said and no agent was bound, the status is as
/// it was.
pub proof fn lemma_recorded_status_holds(pane: AgentPane, v: Verdict, now: u64, idle_dwell_ms: u64)
    ensures
        ({
            let (out, effect) = detected(pane, v, now, idle_dwell_ms);
            &&& effect.recorded matches Some(status) ==> out.status() == status && v.status == Some(
                status,
            )
            &&& effect.left matches Some(status) ==> status == pane.status() && status
                != out.status()
            &&& effect.left is None && !effect.bound ==> out.status() == pane.status()
            &&& effect.recorded is None && !effect.bound ==> out.status() == pane.status()
        }),
{
}

/// A verdict that names an agent binds it where none is bound, or where another
/// is bound with no more authority. An agent that stays bound keeps its name,
/// its session and the time at which it was first seen.
pub proof fn lemma_agent_bound_by_name(pane: AgentPane, v: Verdict, now: u64, idle_dwell_ms: u64)
    ensures
        ({
            let (out, effect) = detected(pane, v, now, idle_dwell_ms);
            &&& out.foreground_pid == v.foreground_pid
            &&& effect.bound <==> v.agent is Some && (pane.agent matches Some(agent) ==> agent.id@
                != v.agent->0@ && v.authority.level() >= agent.authority.level())
            &&& effect.bound ==> {
                &&& out.agent matches Some(agent)
                &&& agent.id == v.agent->0
                &&& agent.started_at == now
                &&& agent.authority == v.authority
                &&& agent.foreground_pid == v.foreground_pid
                &&& agent.session_id is None
                &&& agent.status == (if v.status is Some {
                    v.status->0
                } else {
                    AgentStatus::Starting
                })
            }
            &&& !effect.bound ==> (out.agent is Some <==> pane.agent is Some)
            &&& !effect.bound && pane.agent is Some ==> {
                &&& out.agent->0.id == pane.agent->0.id
                &&& out.agent->0.started_at == pane.agent->0.started_at
                &&& out.agent->0.session_id == pane.agent->0.session_id
                &&& out.agent->0.resume_command == pane.agent->0.resume_command
            }
        }),
{
}

/// A verdict that is held back changes nothing until its time has passed, and is
/// the Pane's status from that time on, if nothing else came between.
pub proof fn lemma_held_verdict_settles(
    pane: AgentPane,
    v: Verdict,
    now: u64,
    idle_dwell_ms: u64,
    later: u64,
)
    requires
        pane.agent is Some,
        pane.candidate is None,
        !detected(pane, v, now, idle_dwell_ms).1.bound,
        detected(pane, v, now, idle_dwell_ms).0.candidate is Some,
        now + detected(pane, v, now, idle_dwell_ms).0.candidate->0.dwell_ms <= u64::MAX,
    ensures
        ({
            let out = detected(pane, v, now, idle_dwell_ms).0;
            let dwell = out.candidate->0.dwell_ms;
            let (end, effect) = settled(out, later);
            &&& v.status is Some
            &&& out.status() == pane.status()
            &&& dwell > 0
            &&& v.provenance.dwell_ms matches Some(ms) ==> dwell >= ms
            &&& v.status->0 is Idle && v.provenance.dwell_ms is None ==> dwell >= idle_dwell_ms
            &&& later < now + dwell ==> end == out && effect.transition is None
            &&& later >= now + dwell ==> {
                &&& end.status() == v.status->0
                &&& end.agent->0.authority == v.authority
                &&& end.agent->0.evidence@ == v.evidence@
                &&& end.candidate is None
                &&& v.status->0 != pane.status() ==> effect.transition == Some(
                    Transition { previous: pane.status(), status: v.status->0 },
                )
            }
        }),
{
}

/// A screen that keeps saying the same does not start its time anew: what is
/// held back falls due when it first was seen to.
pub proof fn lemma_repeated_evidence_is_not_postponed(
    pane: AgentPane,
    v: Verdict,
    now: u64,
    again: u64,
    idle_dwell_ms: u64,
)
    requires
        pane.agent is Some,
        !detected(pane, v, now, idle_dwell_ms).1.bound,
        detected(pane, v, now, idle_dwell_ms).1.recorded is None,
        detected(pane, v, now, idle_dwell_ms).0.candidate is Some,
    ensures
        ({
            let once = detected(pane, v, now, idle_dwell_ms).0;
            let twice = detected(once, v, again, idle_dwell_ms).0;
            twice.candidate == once.candidate && twice.status() == once.status()
        }),
{
}

/// When a held verdict falls due, a change is reported exactly where the status
/// changed, from what it was to what it is.
pub proof fn lemma_settled_change_is_reported(pane: AgentPane, now: u64)
    ensures
        ({
            let (out, effect) = settled(pane, now);
            &&& effect.transition is Some <==> out.status() != pane.status()
            &&& effect.transition matches Some(t) ==> t.previous == pane.status() && t.status
                == out.status() && pane.candidate is Some && t.status == pane.candidate->0.status
            &&& pane.candidate is None ==> out == pane
        }),
{
}

} // verus!
