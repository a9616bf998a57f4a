//! What holds of the agents in the Panes: what their reports change, what their
//! output is worth, and when a person is told.
use crate::checkpoint::{
    armed_at, invocation_in, is_stale, stale_ids, LiveInvocation, WaitingItem,
};
use crate::detection::{AgentPane, AgentStatus};
use crate::hierarchy::{project_at, tabs_of, window_of, WorkspaceState};
use crate::lists::lemma_filter_holds;
use crate::notices::{body_text, title_text, told, Notice};
use crate::notify::{
    location_text, noteworthy, notice_due, notice_later, of_other_pane, tab_place,
    terminal_notice_text, PendingNotification,
};
use crate::pane_events::{
    event_done, pty_plan, some_changed, some_ended, some_ready, AgentEvent, EventEffect, PtyTurn,
};
use crate::settings::NotificationDelivery;
use crate::text::decimal;
use crate::types::PaneId;
use vstd::prelude::*;

verus! {

/// An agent that reports its end is gone from its Pane, with the profile that
/// it was launched by; the Pane remembers who left, and the invocation is over.
pub proof fn lemma_reported_end_unbinds(
    before: AgentPane,
    after: AgentPane,
    ev: AgentEvent,
    foreground: Option<i32>,
    now: u64,
    timestamp_ms: u64,
    effect: EventEffect,
)
    requires
        event_done(before, after, ev, foreground, now, timestamp_ms, effect),
        ev.status is Some,
        ev.status->0 is Exited,
    ensures
        after.agent is None,
        after.launch_args is None,
        effect.ended,
        effect.unbound <==> before.agent is Some,
        effect.changed <==> before.agent is Some,
        effect.profile_cleared <==> before.launch_args is Some,
        !effect.bound && effect.recorded is None && effect.transition is None,
        before.agent is Some ==> {
            &&& after.last_detection is Some
            &&& after.last_detection->0.agent == before.agent->0.id
            &&& after.last_detection->0.status is Exited
            &&& after.last_detection->0.authority is Osc777
            &&& after.last_detection->0.foreground_pid == before.agent->0.foreground_pid
        },
        before.agent is None ==> after.last_detection == before.last_detection,
{
}

/// An agent that gives its name is the agent of the Pane from that report on:
/// its status is the one reported, and busy where it reports none. It started
/// when it was first seen.
pub proof fn lemma_named_report_binds(
    before: AgentPane,
    after: AgentPane,
    ev: AgentEvent,
    foreground: Option<i32>,
    now: u64,
    timestamp_ms: u64,
    effect: EventEffect,
)
    requires
        event_done(before, after, ev, foreground, now, timestamp_ms, effect),
        ev.agent is Some,
        ev.status is Some ==> !(ev.status->0 is Exited),
    ensures
        after.agent is Some,
        after.agent->0.id == ev.agent->0,
        ev.status is Some ==> after.agent->0.status == ev.status->0,
        ev.status is None ==> after.agent->0.status is Working,
        after.agent->0.authority is Osc777,
        after.agent->0.foreground_pid == foreground,
        after.agent->0.session_id == ev.session_id,
        after.agent->0.resume_command == ev.resume_command,
        before.agent is Some && before.agent->0.id@ == ev.agent->0@ ==> after.agent->0.started_at
            == before.agent->0.started_at,
        !(before.agent is Some && before.agent->0.id@ == ev.agent->0@) ==> after.agent->0.started_at
            == now,
        after.last_detection == before.last_detection,
        after.launch_args == before.launch_args,
        after.candidate == before.candidate,
        effect.bound && effect.changed && !effect.unbound && !effect.ended,
        effect.session <==> ev.session_id is Some || ev.resume_command is Some,
        effect.recorded == Some(after.agent->0.status),
        effect.transition is Some <==> (before.agent is Some && before.agent->0.status
            != after.agent->0.status) || (before.agent is None && !(after.agent->0.status is Unknown)),
        effect.transition is Some ==> effect.transition->0.status == after.agent->0.status,
        effect.transition is Some && before.agent is Some ==> effect.transition->0.previous
            == before.agent->0.status,
{
}

/// A report without a name speaks of the agent that is there: it stays who it
/// is, takes the status that is reported and keeps what the report is silent
/// about. Where no agent is, the report changes nothing.
pub proof fn lemma_nameless_report_refines(
    before: AgentPane,
    after: AgentPane,
    ev: AgentEvent,
    foreground: Option<i32>,
    now: u64,
    timestamp_ms: u64,
    effect: EventEffect,
)
    requires
        event_done(before, after, ev, foreground, now, timestamp_ms, effect),
        ev.agent is None,
        ev.status is Some ==> !(ev.status->0 is Exited),
    ensures
        before.agent is None ==> {
            &&& after == before
            &&& effect.recorded is None && effect.transition is None
            &&& !effect.bound && !effect.unbound && !effect.session && !effect.changed
            &&& !effect.ended && !effect.profile_cleared
        },
        before.agent is Some ==> {
            &&& after.agent is Some
            &&& after.agent->0.id == before.agent->0.id
            &&& after.agent->0.started_at == before.agent->0.started_at
            &&& after.agent->0.foreground_pid == before.agent->0.foreground_pid
            &&& after.launch_args == before.launch_args
            &&& after.last_detection == before.last_detection
            &&& ev.status is Some ==> {
                &&& after.agent->0.status == ev.status->0
                &&& after.agent->0.authority is Osc777
            }
            &&& ev.status is None ==> {
                &&& after.agent->0.status == before.agent->0.status
                &&& after.agent->0.authority == before.agent->0.authority
                &&& after.agent->0.evidence == before.agent->0.evidence
            }
            &&& after.agent->0.session_id == if ev.session_id is Some {
                ev.session_id
            } else {
                before.agent->0.session_id
            }
            &&& after.agent->0.resume_command == if ev.resume_command is Some {
                ev.resume_command
            } else {
                before.agent->0.resume_command
            }
            &&& effect.recorded == ev.status
            &&& effect.transition is Some <==> after.agent->0.status != before.agent->0.status
            &&& effect.transition is Some ==> {
                &&& effect.transition->0.previous == before.agent->0.status
                &&& effect.transition->0.status == after.agent->0.status
            }
            &&& !effect.bound && !effect.unbound && !effect.ended
        },
{
}

/// What a report said last holds: a second report of the same status records
/// it and tells nobody of a change.
pub proof fn lemma_repeated_report_is_no_change(
    before: AgentPane,
    between: AgentPane,
    after: AgentPane,
    first: AgentEvent,
    second: AgentEvent,
    foreground: Option<i32>,
    now: u64,
    timestamp_ms: u64,
    one: EventEffect,
    two: EventEffect,
)
    requires
        event_done(before, between, first, foreground, now, timestamp_ms, one),
        event_done(between, after, second, foreground, now, timestamp_ms, two),
        between.agent is Some,
        first.status is Some,
        second.status == first.status,
    ensures
        two.transition is None,
        two.recorded == first.status,
{
}

/// What a turn of output leads to. The end of the terminal closes the Pane. The
/// end of an invocation makes all of its direction stale, another process makes
/// that of the others stale, and direction is delivered only to an agent that is
/// ready and stays. A change of directory is kept at once, other output later.
pub proof fn lemma_turn_of_output(turn: PtyTurn)
    ensures
        ({
            let plan = pty_plan(turn);
            &&& plan.close <==> turn.eof
            &&& plan.direction is CancelAll <==> turn.ended
            &&& plan.direction is CancelOthers <==> !turn.ended && turn.process_changed
            &&& plan.deliver_direction <==> turn.cooperative_ready && !turn.ended
            &&& plan.checkpoint is Now <==> turn.cwd_changed
            &&& plan.checkpoint is Later <==> turn.got_output && !turn.cwd_changed
            &&& plan.defer_read <==> turn.budget_spent && !turn.eof
            &&& plan.paint_output <==> turn.got_output
            &&& plan.sync_titles <==> turn.got_output
            &&& plan.service_waits <==> turn.got_output || turn.agent_changed
            &&& plan.broadcast_nested <==> turn.nested_changed && turn.focused
            &&& plan.repaint_chrome <==> turn.agent_changed && !turn.eof
        }),
{
}

/// Output that was looked at is no news: the same screen of the same process
/// gives nothing a second time. Another process always does.
pub proof fn lemma_seen_output_is_no_news(
    pane: AgentPane,
    foreground: Option<i32>,
    other: Option<i32>,
    tail: Seq<char>,
    title: Seq<char>,
    recent: Seq<char>,
)
    requires
        other != foreground,
    ensures
        ({
            let seen = pane.seen(foreground, tail, title, recent);
            let again = seen.output_news(foreground, tail, title, recent);
            let moved = seen.output_news(other, tail, title, recent);
            &&& !again.process_changed && !again.evidence && !again.dev_server
            &&& moved.process_changed && moved.evidence && !moved.dev_server
            &&& seen.agent == pane.agent
            &&& seen.candidate == pane.candidate
            &&& seen.foreground_pid == foreground
        }),
{
}

/// Among the reports of one turn each counts: one that is ready, one that ends
/// and one that changes the surfaces are enough, wherever they stand.
pub proof fn lemma_each_report_counts(events: Seq<AgentEvent>, effects: Seq<EventEffect>, k: int)
    ensures
        0 <= k < events.len() && events[k].cooperative_ready ==> some_ready(events),
        0 <= k < effects.len() && effects[k].ended ==> some_ended(effects),
        0 <= k < effects.len() && effects[k].changed ==> some_changed(effects),
        events.len() == 0 ==> !some_ready(events),
        effects.len() == 0 ==> !some_ended(effects) && !some_changed(effects),
{
}

/// A person is told when an agent comes to wait for them, and where they asked
/// for it when a busy agent comes to rest. Nothing else is worth a word, and
/// nothing at all where the words are switched off.
pub proof fn lemma_when_a_person_is_told(
    previous: AgentStatus,
    status: AgentStatus,
    completion: bool,
    delivery: NotificationDelivery,
)
    ensures
        delivery is Off ==> !noteworthy(previous, status, completion, delivery),
        !(delivery is Off) && (status is Permission || status is Question) ==> (noteworthy(
            previous,
            status,
            completion,
            delivery,
        ) <==> !(previous is Permission || previous is Question)),
        !(delivery is Off) && status is Idle ==> (noteworthy(previous, status, completion, delivery)
            <==> completion && (previous is Starting || previous is Working || previous is Tool)),
        !(status is Permission || status is Question || status is Idle) ==> !noteworthy(
            previous,
            status,
            completion,
            delivery,
        ),
{
}

/// One Pane has one word waiting at most: forgetting a Pane drops its words and
/// no others, and a word that is due is handed out and kept no longer.
pub proof fn lemma_words_of_a_pane(
    pending: Seq<PendingNotification>,
    pane: PaneId,
    now: u64,
    word: PendingNotification,
)
    ensures
        pending.filter(of_other_pane(pane)).contains(word) <==> pending.contains(word) && word.pane
            != pane,
        pending.filter(notice_due(now)).contains(word) <==> pending.contains(word) && word.due
            <= now,
        pending.filter(notice_later(now)).contains(word) <==> pending.contains(word) && word.due
            > now,
{
    lemma_filter_holds(pending, of_other_pane(pane), word);
    lemma_filter_holds(pending, notice_due(now), word);
    lemma_filter_holds(pending, notice_later(now), word);
}

/// The word goes the way that was asked for and no other, and a toast stays for
/// eight seconds on the Pane that it is about.
pub proof fn lemma_word_goes_its_way(
    delivery: NotificationDelivery,
    notice: Notice,
    pane: PaneId,
    title: Seq<char>,
    body: Seq<char>,
    now: u64,
)
    requires
        told(delivery, notice, pane, title, body, now),
    ensures
        notice is Silent <==> delivery is Off,
        notice is Toast <==> delivery is Uniterm,
        notice is Terminal <==> delivery is Terminal,
        notice is System <==> delivery is System,
        notice is Toast ==> {
            &&& notice->Toast_0.pane == pane
            &&& notice->Toast_0.title@ == title
            &&& notice->Toast_0.body@ == body
            &&& notice->Toast_0.expires == now + 8_000
        },
        notice is System ==> notice->title@ == title && notice->body@ == body,
{
}

/// The words say what happened: that the agent waits, where it does, and that
/// it is through, where it does not. The place is named either way.
pub proof fn lemma_words_say_what_happened(
    agent: Seq<char>,
    label: Seq<char>,
    place: Seq<char>,
    previous: AgentStatus,
    status: AgentStatus,
)
    ensures
        ({
            let waits = (status is Permission || status is Question) && !(previous is Permission
                || previous is Question);
            let title = title_text(agent, previous, status);
            let body = body_text(label, place, previous, status);
            &&& waits ==> title == agent + " needs input"@ && body == label + " in "@ + place
            &&& !waits ==> title == agent + " finished"@ && body == place
        }),
{
}

/// A Tab is called by where it stands among the Tabs of its Project.
pub proof fn lemma_tab_called_by_its_place(tabs: Seq<usize>, w: int, i: int)
    requires
        0 <= i < tabs.len(),
        tabs[i] == w,
        forall|k: int| 0 <= k < i ==> tabs[k] != w,
    ensures
        tab_place(tabs, w, 0) == i,
{
    lemma_place_from(tabs, w, i, 0);
}

proof fn lemma_place_from(tabs: Seq<usize>, w: int, i: int, from: int)
    requires
        0 <= from <= i < tabs.len(),
        tabs[i] == w,
        forall|k: int| 0 <= k < i ==> tabs[k] != w,
    ensures
        tab_place(tabs, w, from) == i,
    decreases i - from,
{
    if from < i {
        lemma_place_from(tabs, w, i, from + 1);
    }
}

/// A change is kept within two seconds: the first sets the time, and what
/// follows does not move it.
pub proof fn lemma_change_kept_in_time(current: Option<u64>, now: u64)
    ensures
        current is None ==> armed_at(current, now) == now + 2_000,
        current is Some ==> armed_at(current, now) == current->0,
{
}

proof fn lemma_invocation_in(live: Seq<LiveInvocation>, pane: PaneId, i: int, from: int)
    requires
        0 <= from <= i < live.len(),
        live[i].pane == pane,
        forall|k: int| 0 <= k < i ==> (#[trigger] live[k]).pane != pane,
    ensures
        invocation_in(live, pane, from) == live[i].pid,
    decreases i - from,
{
    if from < i {
        assert(live[from].pane != pane);
        lemma_invocation_in(live, pane, i, from + 1);
    }
}

proof fn lemma_no_invocation(live: Seq<LiveInvocation>, pane: PaneId, from: int)
    requires
        0 <= from,
        forall|k: int| 0 <= k < live.len() ==> (#[trigger] live[k]).pane != pane,
    ensures
        invocation_in(live, pane, from) is None,
    decreases live.len() - from,
{
    if from < live.len() {
        assert(live[from].pane != pane);
        lemma_no_invocation(live, pane, from + 1);
    }
}

/// What waits for a person stays as long as the process that asked runs in its
/// Pane, and goes stale with it: when another runs there, when none does, and
/// where nobody knows who asked.
pub proof fn lemma_question_outlives_nobody(item: WaitingItem, live: Seq<LiveInvocation>, i: int)
    requires
        0 <= i < live.len(),
        live[i].pane == item.pane,
        forall|k: int| 0 <= k < i ==> (#[trigger] live[k]).pane != item.pane,
    ensures
        is_stale(item, live) <==> item.invocation is None || live[i].pid != item.invocation,
{
    lemma_invocation_in(live, item.pane, i, 0);
}

/// With its Pane gone, nothing that waited there is left.
pub proof fn lemma_question_goes_with_its_pane(item: WaitingItem, live: Seq<LiveInvocation>)
    requires
        forall|k: int| 0 <= k < live.len() ==> (#[trigger] live[k]).pane != item.pane,
    ensures
        is_stale(item, live),
{
    lemma_no_invocation(live, item.pane, 0);
}

proof fn lemma_stale_upto(items: Seq<WaitingItem>, live: Seq<LiveInvocation>, n: nat, k: int)
    requires
        0 <= k < n <= items.len(),
        is_stale(items[k], live),
    ensures
        stale_ids(items, live, n).contains(items[k].id),
    decreases n,
{
    let rest = stale_ids(items, live, (n - 1) as nat);
    let out = stale_ids(items, live, n);
    if k == n - 1 {
        assert(out[out.len() - 1] == items[k].id);
    } else {
        lemma_stale_upto(items, live, (n - 1) as nat, k);
        let at = choose|at: int| 0 <= at < rest.len() && rest[at] == items[k].id;
        assert(out[at] == items[k].id);
    }
}

proof fn lemma_only_stale(items: Seq<WaitingItem>, live: Seq<LiveInvocation>, n: nat, id: u64)
    requires
        n <= items.len(),
        stale_ids(items, live, n).contains(id),
    ensures
        exists|k: int| 0 <= k < n && (#[trigger] items[k]).id == id && is_stale(items[k], live),
    decreases n,
{
    let out = stale_ids(items, live, n);
    let at = choose|at: int| 0 <= at < out.len() && out[at] == id;
    if n > 0 {
        let rest = stale_ids(items, live, (n - 1) as nat);
        if at < rest.len() {
            assert(rest[at] == id);
            lemma_only_stale(items, live, (n - 1) as nat, id);
        } else {
            assert(items[n - 1].id == id);
        }
    }
}

/// Every item whose process is gone is withdrawn, and no other: an item is
/// named exactly where nobody runs any more who asked it.
pub proof fn lemma_stale_items_withdrawn(
    items: Seq<WaitingItem>,
    live: Seq<LiveInvocation>,
    k: int,
    id: u64,
)
    requires
        0 <= k < items.len(),
    ensures
        items[k].invocation is None ==> stale_ids(items, live, items.len()).contains(items[k].id),
        (forall|j: int| 0 <= j < live.len() ==> (#[trigger] live[j]).pane != items[k].pane)
            ==> stale_ids(items, live, items.len()).contains(items[k].id),
        stale_ids(items, live, items.len()).contains(id) ==> exists|j: int|
            0 <= j < items.len() && (#[trigger] items[j]).id == id && is_stale(items[j], live),
{
    if items[k].invocation is None {
        lemma_stale_upto(items, live, items.len(), k);
    }
    if forall|j: int| 0 <= j < live.len() ==> (#[trigger] live[j]).pane != items[k].pane {
        lemma_question_goes_with_its_pane(items[k], live);
        lemma_stale_upto(items, live, items.len(), k);
    }
    if stale_ids(items, live, items.len()).contains(id) {
        lemma_only_stale(items, live, items.len(), id);
    }
}

/// A word about a Pane says where it is: the Project and the place of the Tab in
/// it, or the Workspace where the Pane is not shown.
pub proof fn lemma_word_says_where_the_pane_is(
    s: WorkspaceState,
    pane: PaneId,
    workspace: Seq<char>,
    w: int,
    p: int,
    t: int,
)
    ensures
        window_of(s.windows, pane) is None ==> location_text(s, pane, workspace) == workspace,
        window_of(s.windows, pane) == Some(w) && project_at(s.projects, s.windows[w].project)
            == Some(p) && ({
            let tabs = tabs_of(s.windows, s.windows[w].project);
            &&& 0 <= t < tabs.len()
            &&& tabs[t] == w
            &&& forall|k: int| 0 <= k < t ==> tabs[k] != w
        }) ==> location_text(s, pane, workspace) == s.projects[p].name@ + " / Tab "@ + decimal(
            (t + 1) as nat,
        ),
{
    if window_of(s.windows, pane) == Some(w) {
        let tabs = tabs_of(s.windows, s.windows[w].project);
        if 0 <= t < tabs.len() && tabs[t] == w && (forall|k: int| 0 <= k < t ==> tabs[k] != w) {
            lemma_tab_called_by_its_place(tabs, w, t);
        }
    }
}

/// The outer terminal is told the title and the body in one sequence, which
/// nothing in them can end or break up.
pub proof fn lemma_outer_terminal_is_told(title: Seq<char>, body: Seq<char>, i: int)
    ensures
        ({
            let text = terminal_notice_text(title, body);
            let said = title + ": "@ + body;
            &&& text.len() == said.len() + 5
            &&& text.take(4) == "\u{1b}]9;"@
            &&& text.last() == '\u{7}'
            &&& 0 <= i < said.len() ==> {
                &&& text[i + 4] != '\u{1b}' && text[i + 4] != '\u{7}'
                &&& text[i + 4] != '\r' && text[i + 4] != '\n'
                &&& said[i] != '\u{1b}' && said[i] != '\u{7}' && said[i] != '\r' && said[i] != '\n'
                    ==> text[i + 4] == said[i]
            }
        }),
{
    reveal_strlit("\u{1b}]9;");
    reveal_strlit("\u{7}");
    let text = terminal_notice_text(title, body);
    assert(text.take(4) =~= "\u{1b}]9;"@);
}

} // verus!
