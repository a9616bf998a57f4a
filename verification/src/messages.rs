//! What clients send, and how a batch of it is thinned before it is handled.
use crate::clients::PaneAttachRole;
use crate::commands::Command;
use crate::detection::AgentStatus;
use crate::listings::StopScope;
use crate::mouse::MouseKind;
use crate::orchestration::{ArtifactClaim, OrchestrationKind, SubmissionStatus};
use crate::projects::{ProjectMoveDirection, TabMoveDirection};
use crate::types::{PaneId, ProjectId};
use vstd::prelude::*;

verus! {

/// A message of a client.
#[derive(Debug)]
pub enum ClientMessage {
    Attach { cols: u16, rows: u16 },
    Resize { cols: u16, rows: u16 },
    Input(Vec<u8>),
    PaneAttach { pane: PaneId, role: PaneAttachRole },
    Command(Command),
    Mouse { x: u16, y: u16, event: MouseKind },
    Refresh,
    FocusGained,
    OverlayVisible { on: bool },
    Detach,
    KillServer,
    /// A list of what the server holds.
    Query(Query),
    RenameSession { name: String },
    ProjectCreate { name: String, root: String },
    ProjectRename { project: ProjectId, name: String },
    ProjectMove { project: ProjectId, towards: ProjectMoveDirection },
    ProjectSwitch { project: ProjectId },
    ProjectRemove { project: ProjectId },
    PaneFocus { pane: PaneId },
    HierarchyFocus { project: ProjectId, tab: u32, ordinal: Option<u32> },
    TabMove { direction: TabMoveDirection },
    RenameWindow { name: String },
    AgentFocus { pane: PaneId },
    AgentStop { pane: PaneId },
    AgentsStopAll { scope: StopScope },
    PaneWaitOutput { pane: PaneId, needle: String, timeout_ms: u64 },
    AgentWait { pane: PaneId, wanted: AgentStatus, timeout_ms: u64 },
    RemoteEnvironment { search_path: Vec<String> },
    NewTask {
        prompt: String,
        relay: bool,
        agent: Option<String>,
        role_providers: Vec<String>,
        workflow: Option<String>,
        selector: Option<String>,
    },
    WorkflowSubmit { token: u64, failed: bool, verdict: Option<String>, summary: String },
    OrchestrationSubmit {
        kind: OrchestrationKind,
        token: u64,
        status: SubmissionStatus,
        verdict: Option<String>,
        summary: String,
        artifacts: Vec<ArtifactClaim>,
    },
    TaskRetitle { id: u64, title: String },
    SaveTask { title: String },
    /// A request that is carried out outside the Workspace.
    Outside,
}

/// What a client may ask to see.
#[derive(Clone, Copy, Debug, PartialEq, Eq, Structural)]
pub enum Query {
    Info,
    Workspace,
    Panes,
    Observatory,
    Other,
}

/// The message is a resize.
pub open spec fn resizes(m: ClientMessage) -> bool {
    m is Resize
}

fn is_resize(m: &ClientMessage) -> (yes: bool)
    ensures
        yes == resizes(*m),
{
    match m {
        ClientMessage::Resize { .. } => true,
        _ => false,
    }
}

/// The position of the last resize among the first `n` messages; `-1` for none.
pub open spec fn last_resize(msgs: Seq<ClientMessage>, n: nat) -> int
    decreases n,
{
    if n == 0 {
        -1
    } else if resizes(msgs[n - 1]) {
        n - 1
    } else {
        last_resize(msgs, (n - 1) as nat)
    }
}

/// The first `n` messages without every resize but the one at `last`.
pub open spec fn thinned(msgs: Seq<ClientMessage>, last: int, n: nat) -> Seq<ClientMessage>
    decreases n,
{
    if n == 0 {
        Seq::empty()
    } else {
        let rest = thinned(msgs, last, (n - 1) as nat);
        if resizes(msgs[n - 1]) && n - 1 != last {
            rest
        } else {
            rest.push(msgs[n - 1])
        }
    }
}

/// A batch with only its last resize.
pub open spec fn coalesced(msgs: Seq<ClientMessage>) -> Seq<ClientMessage> {
    thinned(msgs, last_resize(msgs, msgs.len()), msgs.len())
}

/// A message other than a resize.
pub open spec fn other_message() -> spec_fn(ClientMessage) -> bool {
    |m: ClientMessage| !resizes(m)
}

/// A resize.
pub open spec fn resize_message() -> spec_fn(ClientMessage) -> bool {
    |m: ClientMessage| resizes(m)
}

proof fn lemma_last_resize(msgs: Seq<ClientMessage>, n: nat)
    requires
        n <= msgs.len(),
    ensures
        -1 <= last_resize(msgs, n) < n,
        last_resize(msgs, n) >= 0 ==> resizes(msgs[last_resize(msgs, n)]),
        forall|i: int|
            last_resize(msgs, n) < i < n ==> !resizes(#[trigger] msgs[i]),
    decreases n,
{
    if n > 0 && !resizes(msgs[n - 1]) {
        lemma_last_resize(msgs, (n - 1) as nat);
    }
}

proof fn lemma_thinned(msgs: Seq<ClientMessage>, last: int, n: nat)
    requires
        n <= msgs.len(),
        -1 <= last < msgs.len(),
        last >= 0 ==> resizes(msgs[last]),
    ensures
        thinned(msgs, last, n).filter(other_message()) == msgs.take(n as int).filter(
            other_message(),
        ),
        thinned(msgs, last, n).filter(resize_message()) == if 0 <= last < n {
            seq![msgs[last]]
        } else {
            Seq::empty()
        },
    decreases n,
{
    reveal(Seq::filter);
    if n == 0 {
        assert(msgs.take(0) =~= Seq::empty());
    } else {
        lemma_thinned(msgs, last, (n - 1) as nat);
        let rest = thinned(msgs, last, (n - 1) as nat);
        let m = msgs[n - 1];
        assert(msgs.take(n as int).drop_last() =~= msgs.take(n - 1));
        assert(msgs.take(n as int).last() == m);
        assert(rest.push(m).drop_last() =~= rest);
        if last == n - 1 {
            assert(Seq::empty().push(m) =~= seq![m]);
        }
    }
}

/// Thinning a batch keeps every message but resizes, in order; of the resizes
/// it keeps the last.
pub proof fn lemma_coalesced(msgs: Seq<ClientMessage>)
    ensures
        coalesced(msgs).filter(other_message()) == msgs.filter(other_message()),
        coalesced(msgs).filter(resize_message()) == if last_resize(msgs, msgs.len()) >= 0 {
            seq![msgs[last_resize(msgs, msgs.len())]]
        } else {
            Seq::empty()
        },
{
    lemma_last_resize(msgs, msgs.len());
    lemma_thinned(msgs, last_resize(msgs, msgs.len()), msgs.len());
    assert(msgs.take(msgs.len() as int) =~= msgs);
}

proof fn lemma_untouched(msgs: Seq<ClientMessage>, last: int, n: nat)
    requires
        n <= msgs.len(),
        forall|i: int| 0 <= i < n && resizes(#[trigger] msgs[i]) ==> i == last,
    ensures
        thinned(msgs, last, n) == msgs.take(n as int),
    decreases n,
{
    if n == 0 {
        assert(msgs.take(0) =~= Seq::empty());
    } else {
        lemma_untouched(msgs, last, (n - 1) as nat);
        assert(msgs.take(n as int) =~= msgs.take(n - 1).push(msgs[n - 1]));
    }
}

/// A batch with one resize, or none, stays as it is.
pub proof fn lemma_lone_resize_untouched(msgs: Seq<ClientMessage>)
    requires
        forall|i: int, j: int|
            0 <= i < msgs.len() && 0 <= j < msgs.len() && resizes(#[trigger] msgs[i]) && resizes(
                #[trigger] msgs[j],
            ) ==> i == j,
    ensures
        coalesced(msgs) == msgs,
{
    let last = last_resize(msgs, msgs.len());
    lemma_last_resize(msgs, msgs.len());
    assert forall|i: int| 0 <= i < msgs.len() && resizes(#[trigger] msgs[i]) implies i == last by {
        if last >= 0 {
            assert(resizes(msgs[last]));
        }
    }
    lemma_untouched(msgs, last, msgs.len());
    assert(msgs.take(msgs.len() as int) =~= msgs);
}

/// Keep only the last resize of a client's batch: the sizes before it are never
/// seen. Every other message keeps its place in the order.
pub fn coalesce_resizes(msgs: &mut Vec<ClientMessage>)
    ensures
        final(msgs)@ == coalesced(old(msgs)@),
{
    let ghost all = msgs@;
    assert(msgs.len() <= usize::MAX);
    let mut last: usize = msgs.len();
    let mut found = false;
    while last > 0 && !found
        invariant
            msgs@ == all,
            last <= all.len(),
            !found ==> last_resize(all, all.len()) == last_resize(all, last as nat),
            found ==> last < all.len() && last_resize(all, all.len()) == last,
        decreases last,
    {
        last -= 1;
        if is_resize(&msgs[last]) {
            found = true;
        }
    }
    let mut rest: Vec<ClientMessage> = Vec::new();
    std::mem::swap(&mut rest, msgs);
    let ghost mut i: nat = 0;
    let mut at: usize = 0;
    assert(rest@ =~= all.skip(0));
    while rest.len() > 0
        invariant
            i == at,
            i <= all.len(),
            all.len() <= usize::MAX,
            rest@ == all.skip(i as int),
            found ==> last == last_resize(all, all.len()),
            !found ==> last_resize(all, all.len()) == -1,
            msgs@ == thinned(all, last_resize(all, all.len()), i),
        decreases rest@.len(),
    {
        let m = rest.remove(0);
        assert(m == all[i as int]);
        assert(rest@ =~= all.skip((i + 1) as int));
        if !is_resize(&m) || (found && at == last) {
            msgs.push(m);
        }
        at += 1;
        proof {
            i = i + 1;
        }
    }
    assert(i == all.len());
}

} // verus!
