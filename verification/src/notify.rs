//! Notifications: which changes of an agent a human hears of, and in what
//! words.
use crate::detection::AgentStatus;
use crate::hierarchy::{tabs_of, window_of, Workspace, WorkspaceState};
use crate::lists::{lemma_filter_none, lemma_filter_step};
use crate::settings::NotificationDelivery;
use crate::text::{chars_of, push_decimal, push_text};
use crate::types::PaneId;
use vstd::prelude::*;

verus! {

/// How long a change must last before it is told, in milliseconds.
pub const NOTIFICATION_DELAY_MS: u64 = 1_000;

/// How long a toast is shown, in milliseconds.
pub const TOAST_MS: u64 = 8_000;

/// A change that is told unless it passes.
#[derive(Clone, Copy, Debug, PartialEq, Eq, Structural)]
pub struct PendingNotification {
    pub pane: PaneId,
    pub previous: AgentStatus,
    pub status: AgentStatus,
    pub due: u64,
}

/// The agent came to need a human.
pub open spec fn wants_attention(previous: AgentStatus, status: AgentStatus) -> bool {
    status.waits() && !previous.waits()
}

/// The agent finished its work.
pub open spec fn finished(previous: AgentStatus, status: AgentStatus) -> bool {
    status == AgentStatus::Idle && (previous == AgentStatus::Starting || previous
        == AgentStatus::Working || previous == AgentStatus::Tool)
}

/// The change is told.
pub open spec fn noteworthy(
    previous: AgentStatus,
    status: AgentStatus,
    notify_completion: bool,
    delivery: NotificationDelivery,
) -> bool {
    delivery != NotificationDelivery::Off && (wants_attention(previous, status) || (
    notify_completion && finished(previous, status)))
}

/// Notifications of other Panes.
pub open spec fn of_other_pane(pane: PaneId) -> spec_fn(PendingNotification) -> bool {
    |n: PendingNotification| n.pane != pane
}

/// Notifications that are not due.
pub open spec fn notice_later(now: u64) -> spec_fn(PendingNotification) -> bool {
    |n: PendingNotification| n.due > now
}

/// Notifications that are due.
pub open spec fn notice_due(now: u64) -> spec_fn(PendingNotification) -> bool {
    |n: PendingNotification| n.due <= now
}

/// The changes that are about to be told, at most one for each Pane.
#[derive(Debug)]
pub struct Notifications {
    pub pending: Vec<PendingNotification>,
}

impl Notifications {
    pub fn new() -> (all: Notifications)
        ensures
            all.pending@.len() == 0,
    {
        Notifications { pending: Vec::new() }
    }

    /// Nothing is told of a Pane any more.
    pub fn forget_pane(&mut self, pane: PaneId)
        ensures
            final(self).pending@ == old(self).pending@.filter(of_other_pane(pane)),
    {
        let ghost given = self.pending@;
        let ghost keep = of_other_pane(pane);
        let mut others: Vec<PendingNotification> = Vec::new();
        let mut i: usize = 0;
        proof {
            lemma_filter_none(given, keep);
        }
        while i < self.pending.len()
            invariant
                i <= self.pending@.len(),
                self.pending@ == given,
                keep == of_other_pane(pane),
                others@ == given.take(i as int).filter(keep),
            decreases self.pending@.len() - i,
        {
            proof {
                lemma_filter_step(given, i as int, keep);
            }
            if self.pending[i].pane != pane {
                others.push(self.pending[i]);
            }
            i += 1;
        }
        assert(given.take(i as int) =~= given);
        self.pending = others;
    }

    /// Take note of a change. It replaces what was to be told of the Pane.
    pub fn notify_agent_transition(
        &mut self,
        pane: PaneId,
        previous: AgentStatus,
        status: AgentStatus,
        notify_completion: bool,
        delivery: NotificationDelivery,
        now: u64,
    )
        requires
            now <= u64::MAX - NOTIFICATION_DELAY_MS,
        ensures
            ({
                let others = old(self).pending@.filter(of_other_pane(pane));
                final(self).pending@ == if noteworthy(
                    previous,
                    status,
                    notify_completion,
                    delivery,
                ) {
                    others.push(
                        PendingNotification {
                            pane,
                            previous,
                            status,
                            due: (now + NOTIFICATION_DELAY_MS) as u64,
                        },
                    )
                } else {
                    others
                }
            }),
    {
        self.forget_pane(pane);
        let attention = status.needs_human() && !previous.needs_human();
        let completion = notify_completion && status == AgentStatus::Idle && (previous
            == AgentStatus::Starting || previous == AgentStatus::Working || previous
            == AgentStatus::Tool);
        if (attention || completion) && delivery != NotificationDelivery::Off {
            self.pending.push(
                PendingNotification { pane, previous, status, due: now + NOTIFICATION_DELAY_MS },
            );
        }
    }

    /// The changes to tell now, in order. Each is still to be held against what
    /// its agent does.
    pub fn take_due(&mut self, now: u64) -> (due: Vec<PendingNotification>)
        ensures
            due@ == old(self).pending@.filter(notice_due(now)),
            final(self).pending@ == old(self).pending@.filter(notice_later(now)),
    {
        let ghost given = self.pending@;
        let ghost later = notice_later(now);
        let ghost ready = notice_due(now);
        let mut kept: Vec<PendingNotification> = Vec::new();
        let mut due: Vec<PendingNotification> = Vec::new();
        let mut i: usize = 0;
        proof {
            lemma_filter_none(given, later);
            lemma_filter_none(given, ready);
        }
        while i < self.pending.len()
            invariant
                i <= self.pending@.len(),
                self.pending@ == given,
                later == notice_later(now),
                ready == notice_due(now),
                kept@ == given.take(i as int).filter(later),
                due@ == given.take(i as int).filter(ready),
            decreases self.pending@.len() - i,
        {
            proof {
                lemma_filter_step(given, i as int, later);
                lemma_filter_step(given, i as int, ready);
            }
            if self.pending[i].due <= now {
                due.push(self.pending[i]);
            } else {
                kept.push(self.pending[i]);
            }
            i += 1;
        }
        assert(given.take(i as int) =~= given);
        self.pending = kept;
        due
    }

    /// Forget every change.
    pub fn silence(&mut self)
        ensures
            final(self).pending@.len() == 0,
    {
        self.pending = Vec::new();
    }
}

/// Whether a change is still what its agent shows.
pub fn still_current(notice: &PendingNotification, status: Option<AgentStatus>) -> (current: bool)
    ensures
        current == (status == Some(notice.status)),
{
    match status {
        Some(now) => now == notice.status,
        None => false,
    }
}

/// Where a Pane is, in words.
pub open spec fn location_text(s: WorkspaceState, pane: PaneId, workspace: Seq<char>) -> Seq<char> {
    match window_of(s.windows, pane) {
        Some(w) => match crate::hierarchy::project_at(s.projects, s.windows[w].project) {
            Some(p) => s.projects[p].name@ + " / Tab "@ + crate::text::decimal(
                (tab_place(tabs_of(s.windows, s.windows[w].project), w, 0) + 1) as nat,
            ),
            None => workspace,
        },
        None => workspace,
    }
}

/// The position of a Tab in a list, from position `i` on; zero where it is
/// not listed.
pub open spec fn tab_place(tabs: Seq<usize>, w: int, i: int) -> int
    decreases tabs.len() - i,
{
    if i < 0 || i >= tabs.len() {
        0
    } else if tabs[i] == w {
        i
    } else {
        tab_place(tabs, w, i + 1)
    }
}

pub(crate) fn place_of(tabs: &Vec<usize>, w: usize) -> (place: usize)
    ensures
        place == tab_place(tabs@, w as int, 0),
        place == 0 || place < tabs@.len(),
{
    let mut i: usize = 0;
    while i < tabs.len()
        invariant
            i <= tabs@.len(),
            tab_place(tabs@, w as int, 0) == tab_place(tabs@, w as int, i as int),
        decreases tabs@.len() - i,
    {
        if tabs[i] == w {
            return i;
        }
        i += 1;
    }
    0
}

impl Workspace {
    /// Write where a Pane is; the Workspace's name where no Tab shows it.
    pub fn pane_location(&self, pane: PaneId, workspace: &str) -> (text: String)
        ensures
            text@ == location_text(self@, pane, workspace@),
    {
        match self.window_of(pane) {
            Some(w) => {
                proof {
                    crate::tabs::lemma_window_of_found(self@.windows, pane);
                }
                match self.project_position(self.windows[w].project) {
                    Some(p) => {
                        let tabs = self.project_window_indices(self.windows[w].project);
                        let place: usize = place_of(&tabs, w);
                        let mut text = self.projects[p].name.clone();
                        push_text(&mut text, " / Tab ");
                        assert(place < usize::MAX) by {
                            assert(tabs.len() <= usize::MAX);
                        }
                        push_decimal(&mut text, place as u64 + 1);
                        text
                    },
                    None => workspace.to_owned(),
                }
            },
            None => workspace.to_owned(),
        }
    }
}

/// Write the title of a notification.
pub fn notice_title(agent: &str, previous: AgentStatus, status: AgentStatus) -> (title: String)
    ensures
        title@ == if wants_attention(previous, status) {
            agent@ + " needs input"@
        } else {
            agent@ + " finished"@
        },
{
    let mut title = agent.to_owned();
    if status.needs_human() && !previous.needs_human() {
        push_text(&mut title, " needs input");
    } else {
        push_text(&mut title, " finished");
    }
    title
}

/// Write the body of a notification: where the agent is, after what it waits
/// for.
pub fn notice_body(
    label: &str,
    location: String,
    previous: AgentStatus,
    status: AgentStatus,
) -> (body: String)
    ensures
        body@ == if wants_attention(previous, status) {
            label@ + " in "@ + location@
        } else {
            location@
        },
{
    if status.needs_human() && !previous.needs_human() {
        let mut body = label.to_owned();
        push_text(&mut body, " in ");
        push_text(&mut body, location.as_str());
        body
    } else {
        location
    }
}

/// A character that would break a terminal notification becomes a space.
pub open spec fn tame(c: char) -> char {
    if c == '\u{1b}' || c == '\u{7}' || c == '\r' || c == '\n' {
        ' '
    } else {
        c
    }
}

/// The escape sequence that tells the outer terminal.
pub open spec fn terminal_notice_text(title: Seq<char>, body: Seq<char>) -> Seq<char> {
    let said = title + ": "@ + body;
    "\u{1b}]9;"@ + Seq::new(said.len(), |i: int| tame(said[i])) + "\u{7}"@
}

/// Write the escape sequence that tells the outer terminal.
pub fn terminal_notice(title: &str, body: &str) -> (text: String)
    ensures
        text@ == terminal_notice_text(title@, body@),
{
    let mut said = title.to_owned();
    push_text(&mut said, ": ");
    push_text(&mut said, body);
    let chars = chars_of(said.as_str());
    let mut text = "\u{1b}]9;".to_owned();
    let ghost head = text@;
    let mut i: usize = 0;
    assert(text@ =~= head + Seq::new(0, |k: int| tame(said@[k])));
    while i < chars.len()
        invariant
            i <= chars@.len(),
            chars@ == said@,
            text@ == head + Seq::new(i as nat, |k: int| tame(said@[k])),
        decreases chars@.len() - i,
    {
        let c = chars[i];
        let kept = if c == '\u{1b}' || c == '\u{7}' || c == '\r' || c == '\n' {
            ' '
        } else {
            c
        };
        text.push(kept);
        i += 1;
        assert(text@ =~= head + Seq::new(i as nat, |k: int| tame(said@[k])));
    }
    push_text(&mut text, "\u{7}");
    text
}

/// Nothing in a notice can end it early or start another escape sequence.
pub proof fn lemma_terminal_notice_tame(title: Seq<char>, body: Seq<char>)
    ensures
        ({
            let said = title + ": "@ + body;
            let inner = Seq::new(said.len(), |i: int| tame(said[i]));
            forall|i: int|
                0 <= i < inner.len() ==> (#[trigger] inner[i]) != '\u{1b}' && inner[i] != '\u{7}'
                    && inner[i] != '\r' && inner[i] != '\n'
        }),
{
}

} // verus!
