//! Clients that wait for output or for an agent: what they are answered, and
//! when.
use crate::detection::AgentStatus;
use crate::settings::clamp_u64;
use crate::text::{chars_of, clip, retain_recent_utf8};
use crate::types::{PaneId, Token};
use vstd::prelude::*;

verus! {

/// The longest that a client waits, in milliseconds.
pub const MAX_WAIT_MS: u64 = 3_600_000;

/// The most characters of a text that is waited for.
pub const MAX_NEEDLE_CHARS: usize = 4_096;

/// The most lines of output that are handed out.
pub const MAX_OUTPUT_LINES: u32 = 2_000;

/// The most bytes of output that are handed out.
pub const MAX_OUTPUT_BYTES: usize = 262_144;

/// What a client waits for.
#[derive(Debug)]
pub enum PendingControlWait {
    Output { pane: PaneId, needle: String, deadline: u64 },
    Agent { pane: PaneId, status: AgentStatus, deadline: u64 },
}

impl PendingControlWait {
    /// When the wait ends without an answer.
    pub open spec fn ends(self) -> u64 {
        match self {
            PendingControlWait::Output { deadline, .. } => deadline,
            PendingControlWait::Agent { deadline, .. } => deadline,
        }
    }

    /// When the wait ends without an answer.
    pub fn deadline(&self) -> (at: u64)
        ensures
            at == self.ends(),
    {
        match self {
            PendingControlWait::Output { deadline, .. } => *deadline,
            PendingControlWait::Agent { deadline, .. } => *deadline,
        }
    }

    /// Wait for output.
    pub fn for_output(pane: PaneId, needle: &str, timeout_ms: u64, now: u64) -> (wait:
        PendingControlWait)
        requires
            now <= u64::MAX - MAX_WAIT_MS,
        ensures
            wait matches PendingControlWait::Output { pane: p, needle: n, deadline } && p == pane
                && n@ == crate::text::clipped(needle@, MAX_NEEDLE_CHARS as nat) && deadline == now
                + crate::settings::clamped(timeout_ms as int, 1, MAX_WAIT_MS as int),
    {
        PendingControlWait::Output {
            pane,
            needle: clip(needle, MAX_NEEDLE_CHARS),
            deadline: now + clamp_u64(timeout_ms, 1, MAX_WAIT_MS),
        }
    }

    /// Wait for an agent.
    pub fn for_agent(pane: PaneId, status: AgentStatus, timeout_ms: u64, now: u64) -> (wait:
        PendingControlWait)
        requires
            now <= u64::MAX - MAX_WAIT_MS,
        ensures
            wait == (PendingControlWait::Agent {
                pane,
                status,
                deadline: (now + crate::settings::clamped(
                    timeout_ms as int,
                    1,
                    MAX_WAIT_MS as int,
                )) as u64,
            }),
    {
        PendingControlWait::Agent {
            pane,
            status,
            deadline: now + clamp_u64(timeout_ms, 1, MAX_WAIT_MS),
        }
    }
}

/// `needle` stands at position `i` of `text`.
pub open spec fn stands_at(text: Seq<char>, needle: Seq<char>, i: int) -> bool {
    0 <= i && i + needle.len() <= text.len() && text.subrange(i, i + needle.len()) == needle
}

/// `needle` stands somewhere in `text`.
pub open spec fn holds_text(text: Seq<char>, needle: Seq<char>) -> bool {
    exists|i: int| stands_at(text, needle, i)
}

/// Whether `needle` stands somewhere in `text`.
pub fn text_holds(text: &str, needle: &str) -> (found: bool)
    ensures
        found == holds_text(text@, needle@),
{
    let t = chars_of(text);
    let n = chars_of(needle);
    if n.len() > t.len() {
        return false;
    }
    assert(t.len() <= usize::MAX);
    let last: usize = t.len() - n.len();
    let mut i: usize = 0;
    while i <= last
        invariant
            t@ == text@,
            n@ == needle@,
            n@.len() <= t@.len() <= usize::MAX,
            last == t@.len() - n@.len(),
            i <= last + 1,
            forall|k: int| 0 <= k < i ==> !stands_at(text@, needle@, k),
        decreases last + 1 - i,
    {
        let mut j: usize = 0;
        while j < n.len() && t[i + j] == n[j]
            invariant
                t@ == text@,
                n@ == needle@,
                i <= last,
                t@.len() <= usize::MAX,
                last == t@.len() - n@.len(),
                j <= n@.len(),
                forall|k: int| 0 <= k < j ==> t@[i + k] == n@[k],
            decreases n@.len() - j,
        {
            j += 1;
        }
        if j == n.len() {
            assert(text@.subrange(i as int, i + needle@.len()) =~= needle@);
            assert(stands_at(text@, needle@, i as int));
            return true;
        }
        proof {
            if stands_at(text@, needle@, i as int) {
                assert(text@.subrange(i as int, i + needle@.len())[j as int] == needle@[j as int]);
            }
        }
        if i == last {
            return false;
        }
        i += 1;
    }
    false
}

/// How many lines of output are read for a request.
pub fn output_lines(lines: u32) -> (n: u32)
    ensures
        n == crate::settings::clamped(lines as int, 1, MAX_OUTPUT_LINES as int),
{
    if lines < 1 {
        1
    } else if lines > MAX_OUTPUT_LINES {
        MAX_OUTPUT_LINES
    } else {
        lines
    }
}

/// Keep the newest output that is handed out; whether older was dropped.
pub fn bound_output(text: &mut String) -> (truncated: bool)
    ensures
        final(text)@ == crate::text::newest(old(text)@, MAX_OUTPUT_BYTES as nat),
        truncated == (crate::text::utf8_len(old(text)@) > MAX_OUTPUT_BYTES),
{
    retain_recent_utf8(text, MAX_OUTPUT_BYTES)
}

/// What a waiting client is answered.
#[derive(Clone, Copy, Debug, PartialEq, Eq, Structural)]
pub enum WaitAnswer {
    /// Nothing yet.
    Later,
    /// The Pane is gone.
    Gone,
    Matched,
    TimedOut,
}

/// Answer a client that waits for output. `output` is what the Pane shows.
pub fn answer_output_wait(output: Option<&str>, needle: &str, deadline: u64, now: u64) -> (answer:
    WaitAnswer)
    ensures
        answer == match output {
            None => WaitAnswer::Gone,
            Some(text) => if holds_text(text@, needle@) {
                WaitAnswer::Matched
            } else if now >= deadline {
                WaitAnswer::TimedOut
            } else {
                WaitAnswer::Later
            },
        },
{
    match output {
        None => WaitAnswer::Gone,
        Some(text) => if text_holds(text, needle) {
            WaitAnswer::Matched
        } else if now >= deadline {
            WaitAnswer::TimedOut
        } else {
            WaitAnswer::Later
        },
    }
}

/// Answer a client that waits for an agent. `current` is its status, if an
/// agent runs in the Pane.
pub fn answer_agent_wait(
    pane_lives: bool,
    current: Option<AgentStatus>,
    status: AgentStatus,
    deadline: u64,
    now: u64,
) -> (answer: WaitAnswer)
    ensures
        answer == if !pane_lives {
            WaitAnswer::Gone
        } else if current == Some(status) {
            WaitAnswer::Matched
        } else if now >= deadline {
            WaitAnswer::TimedOut
        } else {
            WaitAnswer::Later
        },
{
    if !pane_lives {
        return WaitAnswer::Gone;
    }
    let matched = match current {
        Some(now_status) => now_status == status,
        None => false,
    };
    if matched {
        WaitAnswer::Matched
    } else if now >= deadline {
        WaitAnswer::TimedOut
    } else {
        WaitAnswer::Later
    }
}

/// A client that waits.
#[derive(Debug)]
pub struct ClientWait {
    pub client: Token,
    pub wait: PendingControlWait,
}

/// What is seen of the Pane that a client waits for.
#[derive(Debug)]
pub struct PaneSeen {
    pub lives: bool,
    /// Its newest lines.
    pub text: String,
    /// The status of its agent, if one runs.
    pub status: Option<AgentStatus>,
}

/// What a client that waited is told.
#[derive(Debug)]
pub enum WaitReply {
    Output { client: Token, pane: PaneId, answer: WaitAnswer, text: String, truncated: bool },
    Agent { client: Token, pane: PaneId, answer: WaitAnswer, status: Option<AgentStatus> },
}

/// The answer to a wait at `now`.
pub open spec fn answered(wait: PendingControlWait, seen: PaneSeen, now: u64) -> WaitAnswer {
    let (matched, deadline) = match wait {
        PendingControlWait::Output { needle, deadline, .. } => (
            holds_text(crate::text::newest(seen.text@, MAX_OUTPUT_BYTES as nat), needle@),
            deadline,
        ),
        PendingControlWait::Agent { status, deadline, .. } => (
            seen.status == Some(status),
            deadline,
        ),
    };
    if !seen.lives {
        WaitAnswer::Gone
    } else if matched {
        WaitAnswer::Matched
    } else if now >= deadline {
        WaitAnswer::TimedOut
    } else {
        WaitAnswer::Later
    }
}

/// What a client that waited is told: of a Pane that is gone, nothing else.
pub open spec fn reply_says(reply: WaitReply, waiting: ClientWait, seen: PaneSeen, now: u64) -> bool {
    let said = answered(waiting.wait, seen, now);
    match waiting.wait {
        PendingControlWait::Output { pane: p, .. } => {
            &&& reply matches WaitReply::Output { client, pane, answer, text, truncated }
            &&& client == waiting.client
            &&& pane == p
            &&& answer == said
            &&& text@ == if seen.lives {
                crate::text::newest(seen.text@, MAX_OUTPUT_BYTES as nat)
            } else {
                Seq::empty()
            }
            &&& truncated == (seen.lives && crate::text::utf8_len(seen.text@) > MAX_OUTPUT_BYTES)
        },
        PendingControlWait::Agent { pane: p, .. } => {
            &&& reply matches WaitReply::Agent { client, pane, answer, status }
            &&& client == waiting.client
            &&& pane == p
            &&& answer == said
            &&& status == if seen.lives {
                seen.status
            } else {
                None
            }
        },
    }
}

/// The places, of the first `n` waits, that are answered now.
pub open spec fn places_answered(
    list: Seq<ClientWait>,
    seen: Seq<PaneSeen>,
    now: u64,
    n: nat,
) -> Seq<int>
    decreases n,
{
    if n == 0 {
        Seq::empty()
    } else {
        let rest = places_answered(list, seen, now, (n - 1) as nat);
        if answered(list[n - 1].wait, seen[n - 1], now) == WaitAnswer::Later {
            rest
        } else {
            rest.push(n - 1)
        }
    }
}

/// Those of the first `n` waits that go on.
pub open spec fn waits_left(
    list: Seq<ClientWait>,
    seen: Seq<PaneSeen>,
    now: u64,
    n: nat,
) -> Seq<ClientWait>
    decreases n,
{
    if n == 0 {
        Seq::empty()
    } else {
        let rest = waits_left(list, seen, now, (n - 1) as nat);
        if answered(list[n - 1].wait, seen[n - 1], now) == WaitAnswer::Later {
            rest.push(list[n - 1])
        } else {
            rest
        }
    }
}

/// Look at one wait: it goes on, or it is answered.
fn look_at(waiting: ClientWait, seen: PaneSeen, now: u64) -> (out: Result<ClientWait, WaitReply>)
    ensures
        match out {
            Ok(w) => w == waiting && answered(waiting.wait, seen, now) == WaitAnswer::Later,
            Err(reply) => answered(waiting.wait, seen, now) != WaitAnswer::Later && reply_says(
                reply,
                waiting,
                seen,
                now,
            ),
        },
{
    let ClientWait { client, wait } = waiting;
    match wait {
        PendingControlWait::Output { pane, needle, deadline } => {
            if !seen.lives {
                let text = String::new();
                return Err(
                    WaitReply::Output {
                        client,
                        pane,
                        answer: WaitAnswer::Gone,
                        text,
                        truncated: false,
                    },
                );
            }
            let mut text = seen.text;
            let truncated = bound_output(&mut text);
            let answer = answer_output_wait(Some(text.as_str()), needle.as_str(), deadline, now);
            if answer == WaitAnswer::Later {
                Ok(
                    ClientWait {
                        client,
                        wait: PendingControlWait::Output { pane, needle, deadline },
                    },
                )
            } else {
                Err(WaitReply::Output { client, pane, answer, text, truncated })
            }
        },
        PendingControlWait::Agent { pane, status, deadline } => {
            let answer = answer_agent_wait(seen.lives, seen.status, status, deadline, now);
            if answer == WaitAnswer::Later {
                Ok(ClientWait { client, wait: PendingControlWait::Agent { pane, status, deadline } })
            } else {
                let current = if seen.lives {
                    seen.status
                } else {
                    None
                };
                Err(WaitReply::Agent { client, pane, answer, status: current })
            }
        },
    }
}

/// Answer the clients whose wait is over, in order; the others go on waiting.
/// `seen` says of each wait what is seen of its Pane.
pub fn service_pending_waits(list: &mut Vec<ClientWait>, seen: Vec<PaneSeen>, now: u64) -> (replies:
    Vec<WaitReply>)
    requires
        seen@.len() == old(list)@.len(),
    ensures
        final(list)@ == waits_left(old(list)@, seen@, now, old(list)@.len()),
        ({
            let places = places_answered(old(list)@, seen@, now, old(list)@.len());
            &&& replies@.len() == places.len()
            &&& forall|k: int|
                0 <= k < places.len() ==> reply_says(
                    #[trigger] replies@[k],
                    old(list)@[places[k]],
                    seen@[places[k]],
                    now,
                )
        }),
{
    let ghost given = list@;
    let ghost all = seen@;
    let mut views = seen;
    let mut rest: Vec<ClientWait> = Vec::new();
    std::mem::swap(&mut rest, list);
    let mut replies: Vec<WaitReply> = Vec::new();
    let ghost mut i: nat = 0;
    assert(rest@ =~= given.skip(0));
    assert(views@ =~= all.skip(0));
    while rest.len() > 0
        invariant
            i <= given.len(),
            all.len() == given.len(),
            rest@ == given.skip(i as int),
            views@ == all.skip(i as int),
            list@ == waits_left(given, all, now, i),
            replies@.len() == places_answered(given, all, now, i).len(),
            forall|k: int|
                0 <= k < replies@.len() ==> reply_says(
                    #[trigger] replies@[k],
                    given[places_answered(given, all, now, i)[k]],
                    all[places_answered(given, all, now, i)[k]],
                    now,
                ),
        decreases rest@.len(),
    {
        let waiting = rest.remove(0);
        let view = views.remove(0);
        proof {
            assert(waiting == given[i as int]);
            assert(view == all[i as int]);
            assert(rest@ =~= given.skip(i as int + 1));
            assert(views@ =~= all.skip(i as int + 1));
        }
        let ghost before = places_answered(given, all, now, i);
        match look_at(waiting, view, now) {
            Ok(w) => list.push(w),
            Err(reply) => replies.push(reply),
        }
        proof {
            i = i + 1;
            let places = places_answered(given, all, now, i);
            assert forall|k: int| 0 <= k < replies@.len() implies reply_says(
                #[trigger] replies@[k],
                given[places[k]],
                all[places[k]],
                now,
            ) by {
                if k < before.len() {
                    assert(places[k] == before[k]);
                }
            }
        }
    }
    replies
}

proof fn lemma_waits_left(list: Seq<ClientWait>, seen: Seq<PaneSeen>, now: u64, n: nat)
    requires
        n <= list.len(),
        seen.len() == list.len(),
    ensures
        forall|k: int|
            0 <= k < waits_left(list, seen, now, n).len() ==> now < (#[trigger] waits_left(
                list,
                seen,
                now,
                n,
            )[k]).wait.ends(),
        waits_left(list, seen, now, n).len() + places_answered(list, seen, now, n).len() == n,
    decreases n,
{
    if n > 0 {
        lemma_waits_left(list, seen, now, (n - 1) as nat);
    }
}

/// No client waits past its deadline, and none is dropped without a word: each
/// wait is answered or goes on.
pub proof fn lemma_no_wait_overdue(list: Seq<ClientWait>, seen: Seq<PaneSeen>, now: u64)
    requires
        seen.len() == list.len(),
    ensures
        forall|k: int|
            0 <= k < waits_left(list, seen, now, list.len()).len() ==> now < (#[trigger] waits_left(
                list,
                seen,
                now,
                list.len(),
            )[k]).wait.ends(),
        waits_left(list, seen, now, list.len()).len() + places_answered(
            list,
            seen,
            now,
            list.len(),
        ).len() == list.len(),
{
    lemma_waits_left(list, seen, now, list.len());
}

} // verus!
