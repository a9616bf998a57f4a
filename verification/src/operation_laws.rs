//! What the operations of the server come to for those who ask for them: each
//! law speaks of every outcome that the operation may have.
use crate::clients::{client_at, Clients, PaneAttachRole, RepaintTarget};
use crate::commands::{
    lemma_split_stands_along_its_axis, resize_command, Command, CommandEffect, CommandInputs,
    FocusDir, ObservatoryTab, SplitAxis, ViewState,
};
use crate::checkpoint::LiveInvocation;
use crate::detection::{
    lemma_agent_bound_by_name, lemma_recorded_status_holds, lemma_settled_change_is_reported,
    AgentPane, AgentStatus, DetectionEffect, SettleEffect, Verdict,
};
use crate::focus::Focused;
use crate::hierarchy::{project_at, tabs_of, unshown, Workspace};
use crate::instruction::{
    instruction_at, InstructionAuthor, InstructionCommand, InstructionCommandResult,
    InstructionQueue,
};
use crate::layout::rects;
use crate::menu::TabSwitch;
use crate::orchestration::{
    ArtifactClaim, OrchestrationKind, Orchestrations, SubmissionStatus,
};
use crate::overview::OverviewChange;
use crate::pointer::scroll_list;
use crate::projects::{
    lemma_active_position, other_tabs, place_in, project_panes, RemovedProject,
};
use crate::run_submit::{lemma_verdict_is_the_verifiers_word, Submitted};
use crate::scope::SidebarScope;
use crate::tabs::{lemma_tabs_among, lemma_window_of_found, ClosedPane};
use crate::text::trimmed;
use crate::types::{PaneId, ProjectId, Rect, SplitDir, Token};
use vstd::prelude::*;

verus! {

/// A command shows what it changed, keeps what it switched, and writes the
/// Workspace down unless it closed the last Tab.
pub proof fn lemma_command_has_its_effect(
    workspace: &mut Workspace,
    view: &mut ViewState,
    cmd: Command,
    inputs: CommandInputs,
    effect: CommandEffect,
)
    requires
        call_ensures(Workspace::handle_command, (workspace, view, cmd, inputs), effect),
        old(workspace)@.wf(),
        old(workspace)@.windows.len() <= usize::MAX,
    ensures
        effect.copy_mode <==> cmd is CopyMode,
        effect.save_config <==> cmd is SidebarToggle || cmd is FileSidebarToggle
            || cmd is Observatory,
        !effect.persist <==> cmd is KillWindow && final(workspace)@.windows.len() == 0,
        cmd is KillPane ==> effect.closed@.len() == 1,
        !(cmd is KillPane) && !(cmd is KillWindow) ==> effect.closed@.len() == 0,
        effect.persist && old(view).context_menu ==> effect.repaint,
        effect.persist && cmd is Overview ==> effect.repaint,
        effect.persist && effect.relayout ==> effect.repaint,
        !(cmd is KillWindow) && !(cmd is KillPane) && final(workspace)@ != old(workspace)@
            ==> effect.repaint,
        cmd is CopyMode || cmd is SidebarToggle || cmd is FileSidebarToggle || cmd is Observatory
            ==> final(workspace)@ == old(workspace)@,
        !final(view).context_menu,
        cmd is SidebarToggle ==> final(view).sidebar == !old(view).sidebar,
        cmd is Observatory ==> final(view).file_sidebar == !old(view).file_sidebar,
        cmd is Split || cmd is Focus || cmd is ResizePane ==> final(workspace)@.windows.len()
            == old(workspace)@.windows.len(),
{
}

/// The command to split gives the new Pane its half of the focused one's room:
/// below it or beside it, as was asked.
pub proof fn lemma_split_command_divides_the_pane(
    workspace: &mut Workspace,
    view: &mut ViewState,
    axis: SplitAxis,
    inputs: CommandInputs,
    effect: CommandEffect,
    area: Rect,
    k: int,
)
    requires
        call_ensures(
            Workspace::handle_command,
            (workspace, view, Command::Split(axis), inputs),
            effect,
        ),
        old(workspace)@.wf(),
        old(workspace)@.windows.len() <= usize::MAX,
        area.fits(),
        inputs.spawned is Some,
        unshown(old(workspace)@.windows, inputs.spawned->0),
        0 <= k < old(workspace)@.tab().layout.panes().len(),
        old(workspace)@.tab().layout.panes()[k] == old(workspace)@.tab().active,
    ensures
        ({
            let old_rects = rects(old(workspace)@.tab().layout, area);
            let new_rects = rects(final(workspace)@.tab().layout, area);
            let a = new_rects[k].rect;
            let b = new_rects[k + 1].rect;
            &&& effect.relayout && effect.repaint
            &&& new_rects.len() == old_rects.len() + 1
            &&& new_rects[k].pane == old(workspace)@.tab().active
            &&& new_rects[k + 1].pane == inputs.spawned->0
            &&& final(workspace)@.tab().active == inputs.spawned->0
            &&& axis is TopBottom ==> a.x == b.x && a.w == b.w && a.bottom() <= b.y
            &&& axis is LeftRight ==> a.y == b.y && a.h == b.h && a.right() <= b.x
        }),
{
    lemma_split_stands_along_its_axis(old(workspace)@, axis, inputs, area, k);
}

/// A step along the Tab bar shows the neighbor on that side, around the ends.
pub proof fn lemma_step_shows_the_neighbor(
    workspace: &mut Workspace,
    forward: bool,
    moved: bool,
    at: int,
)
    requires
        call_ensures(Workspace::cycle_tabs, (workspace, forward), moved),
        old(workspace)@.wf(),
        old(workspace)@.windows.len() <= usize::MAX,
        place_in(
            tabs_of(old(workspace)@.windows, old(workspace)@.active_project),
            old(workspace)@.active_window,
            at,
        ),
    ensures
        ({
            let tabs = tabs_of(old(workspace)@.windows, old(workspace)@.active_project);
            let n = tabs.len() as int;
            &&& moved <==> n > 1
            &&& !moved ==> final(workspace)@ == old(workspace)@
            &&& moved && forward && at + 1 < n ==> final(workspace)@.active_window == tabs[at + 1]
            &&& moved && forward && at + 1 == n ==> final(workspace)@.active_window == tabs[0]
            &&& moved && !forward && at > 0 ==> final(workspace)@.active_window == tabs[at - 1]
            &&& moved && !forward && at == 0 ==> final(workspace)@.active_window == tabs[n - 1]
            &&& final(workspace)@.windows.len() == old(workspace)@.windows.len()
        }),
{
    let s = old(workspace)@;
    let tabs = tabs_of(s.windows, s.active_project);
    lemma_tabs_among(s.windows, s.active_project, s.windows.len());
    lemma_active_position(s);
    assert(s.active_position() == at);
    let n = tabs.len() as int;
    let to = if forward {
        if at + 1 == n {
            0
        } else {
            at + 1
        }
    } else {
        if at == 0 {
            n - 1
        } else {
            at - 1
        }
    };
    if n > 1 {
        assert(0 <= tabs[to] < s.windows.len());
    }
}

/// A Pane is zoomed alone, or the zoom dropped, and the focus stays.
pub proof fn lemma_zoom_is_toggled(workspace: &mut Workspace)
    requires
        call_ensures(Workspace::toggle_zoom, (workspace,), ()),
        old(workspace)@.wf(),
        old(workspace)@.windows.len() <= usize::MAX,
    ensures
        old(workspace)@.tab().zoomed is None ==> final(workspace)@.tab().zoomed == Some(
            old(workspace)@.tab().active,
        ),
        old(workspace)@.tab().zoomed is Some ==> final(workspace)@.tab().zoomed is None,
        final(workspace)@.tab().active == old(workspace)@.tab().active,
        final(workspace)@.tab().layout == old(workspace)@.tab().layout,
        final(workspace)@.active_window == old(workspace)@.active_window,
{
}

/// A Tab is selected by its place in the bar.
pub proof fn lemma_tab_is_selected(workspace: &mut Workspace, n: usize, moved: bool)
    requires
        call_ensures(Workspace::select_tab, (workspace, n), moved),
        old(workspace)@.wf(),
        old(workspace)@.windows.len() <= usize::MAX,
    ensures
        ({
            let tabs = tabs_of(old(workspace)@.windows, old(workspace)@.active_project);
            &&& n < tabs.len() ==> final(workspace)@.active_window == tabs[n as int]
            &&& n >= tabs.len() ==> final(workspace)@ == old(workspace)@
            &&& moved <==> n < tabs.len() && tabs[n as int] != old(workspace)@.active_window
        }),
{
    let s = old(workspace)@;
    let tabs = tabs_of(s.windows, s.active_project);
    lemma_tabs_among(s.windows, s.active_project, s.windows.len());
    if n < tabs.len() {
        assert(0 <= tabs[n as int] < s.windows.len());
    }
}

/// The focus moves to the Pane, drops the zoom, and remembers where it was.
pub proof fn lemma_focus_is_moved(workspace: &mut Workspace, pane: PaneId)
    requires
        call_ensures(Workspace::move_focus, (workspace, pane), ()),
        old(workspace)@.wf(),
        old(workspace)@.windows.len() <= usize::MAX,
    ensures
        final(workspace)@.tab().active == pane,
        final(workspace)@.tab().zoomed is None,
        final(workspace)@.last_active_pane == Some(old(workspace)@.tab().active),
        final(workspace)@.tab().layout == old(workspace)@.tab().layout,
        final(workspace)@.active_window == old(workspace)@.active_window,
{
}

/// The focus goes back to the Pane that had it, where that is shown here.
pub proof fn lemma_focus_goes_back(workspace: &mut Workspace, moved: bool)
    requires
        call_ensures(Workspace::focus_previous, (workspace,), moved),
        old(workspace)@.wf(),
        old(workspace)@.windows.len() <= usize::MAX,
    ensures
        moved <==> old(workspace)@.last_active_pane is Some
            && old(workspace)@.tab().layout.panes().contains(old(workspace)@.last_active_pane->0),
        moved ==> final(workspace)@.tab().active == old(workspace)@.last_active_pane->0,
        !moved ==> final(workspace)@ == old(workspace)@,
{
}

/// A new Tab comes last, holds its one Pane, and is shown.
pub proof fn lemma_new_tab_is_pushed(workspace: &mut Workspace, pane: PaneId)
    requires
        call_ensures(Workspace::push_window, (workspace, pane), ()),
        old(workspace)@.wf(),
        old(workspace)@.windows.len() <= usize::MAX,
    ensures
        final(workspace)@.windows.len() == old(workspace)@.windows.len() + 1,
        final(workspace)@.active_window == old(workspace)@.windows.len(),
        final(workspace)@.tab().layout.panes() == seq![pane],
        final(workspace)@.tab().active == pane,
        final(workspace)@.tab().project == old(workspace)@.active_project,
{
}

/// A Project is shown by switching to it, where it is another and has a Tab.
pub proof fn lemma_project_is_switched_to(
    workspace: &mut Workspace,
    project: ProjectId,
    switched: bool,
)
    requires
        call_ensures(Workspace::switch_project, (workspace, project), switched),
        old(workspace)@.wf(),
        old(workspace)@.windows.len() <= usize::MAX,
    ensures
        switched ==> final(workspace)@.active_project == project,
        switched <==> project != old(workspace)@.active_project && exists|i: int|
            0 <= i < old(workspace)@.windows.len()
            && (#[trigger] old(workspace)@.windows[i]).project == project,
{
}

/// A new Project gets the next number, its name and its root, and is shown.
pub proof fn lemma_project_is_added(
    workspace: &mut Workspace,
    name: String,
    root: String,
    pane: PaneId,
    id: ProjectId,
)
    requires
        call_ensures(Workspace::add_project, (workspace, name, root, pane), id),
        old(workspace)@.wf(),
        old(workspace)@.windows.len() <= usize::MAX,
    ensures
        id.0 == old(workspace)@.next_project_id,
        final(workspace)@.active_project == id,
        final(workspace)@.next_project_id == old(workspace)@.next_project_id + 1,
        final(workspace)@.projects.len() == old(workspace)@.projects.len() + 1,
        final(workspace)@.windows.len() == old(workspace)@.windows.len() + 1,
{
}

/// A Project takes its new name without the blanks around it; a blank one changes
/// nothing.
pub proof fn lemma_project_is_renamed(
    workspace: &mut Workspace,
    project: ProjectId,
    name: &str,
    renamed: bool,
    p: int,
)
    requires
        call_ensures(Workspace::rename_project, (workspace, project, name), renamed),
        old(workspace)@.wf(),
        old(workspace)@.windows.len() <= usize::MAX,
    ensures
        renamed && project_at(old(workspace)@.projects, project) == Some(p)
            && 0 <= p < old(workspace)@.projects.len() ==> final(workspace)@.projects[p].name@
            == trimmed(name@) && final(workspace)@.projects[p].root
            == old(workspace)@.projects[p].root,
        trimmed(name@).len() == 0 ==> !renamed,
        !renamed ==> final(workspace)@ == old(workspace)@,
        final(workspace)@.windows == old(workspace)@.windows,
{
}

/// A removed Project takes its Tabs and their Panes along, and no others.
pub proof fn lemma_project_is_removed(
    workspace: &mut Workspace,
    project: ProjectId,
    removed: Option<RemovedProject>,
)
    requires
        call_ensures(Workspace::remove_project, (workspace, project), removed),
        old(workspace)@.wf(),
        old(workspace)@.windows.len() <= usize::MAX,
    ensures
        removed is None ==> final(workspace)@ == old(workspace)@,
        removed is Some ==> final(workspace)@.windows
            == other_tabs(old(workspace)@.windows, project),
        removed is Some ==> removed->0.panes@ == project_panes(old(workspace)@.windows, project),
        removed is Some ==> (removed->0.stopped <==> final(workspace)@.windows.len() == 0),
{
}

/// A closed Pane is shown no more; every other Pane is shown where it was.
pub proof fn lemma_pane_is_closed(
    workspace: &mut Workspace,
    pane: PaneId,
    done: ClosedPane,
    q: PaneId,
)
    requires
        call_ensures(Workspace::close_pane, (workspace, pane), done),
        old(workspace)@.wf(),
        old(workspace)@.windows.len() <= usize::MAX,
    ensures
        unshown(final(workspace)@.windows, pane),
        q != pane ==> (unshown(final(workspace)@.windows, q)
            <==> unshown(old(workspace)@.windows, q)),
        done == old(workspace)@.closing(pane),
        final(workspace)@ == old(workspace)@.close(pane),
{
}

/// A Pane that is moved to another Tab stays shown, with every other Pane.
pub proof fn lemma_moved_pane_is_kept(
    workspace: &mut Workspace,
    area: Rect,
    pane: PaneId,
    target: usize,
    moved: bool,
    q: PaneId,
)
    requires
        call_ensures(Workspace::move_pane_to_window, (workspace, area, pane, target), moved),
        old(workspace)@.wf(),
        old(workspace)@.windows.len() <= usize::MAX,
    ensures
        !moved ==> final(workspace)@ == old(workspace)@,
        moved ==> final(workspace)@ == old(workspace)@.move_into(pane, target as int, area),
        moved <==> old(workspace)@.can_move(pane, target as int),
        unshown(final(workspace)@.windows, q) <==> unshown(old(workspace)@.windows, q),
{
}

/// The focus goes to a Pane wherever it is shown, and names the Project it had to
/// enter for it.
pub proof fn lemma_pane_is_focused(
    workspace: &mut Workspace,
    pane: PaneId,
    focused: Option<Focused>,
)
    requires
        call_ensures(Workspace::focus_pane_target, (workspace, pane), focused),
        old(workspace)@.wf(),
        old(workspace)@.windows.len() <= usize::MAX,
    ensures
        focused is Some <==> !unshown(old(workspace)@.windows, pane),
        focused is Some ==> focused->0.pane == pane,
        focused is Some && focused->0.selected_project is Some ==> focused->0.selected_project
            != Some(old(workspace)@.active_project),
        final(workspace)@ == old(workspace)@.focus_on(pane),
{
    lemma_window_of_found(old(workspace)@.windows, pane);
}

/// A Pane that is shown to someone has the focus of its Tab.
pub proof fn lemma_pane_is_shown(workspace: &mut Workspace, pane: PaneId, found: bool)
    requires
        call_ensures(Workspace::show_pane, (workspace, pane), found),
        old(workspace)@.wf(),
        old(workspace)@.windows.len() <= usize::MAX,
    ensures
        found <==> !unshown(old(workspace)@.windows, pane),
        !found ==> final(workspace)@ == old(workspace)@,
        found ==> final(workspace)@.tab().active == pane,
{
    lemma_window_of_found(old(workspace)@.windows, pane);
}

/// The overview is left for the tile that was picked, and for none.
pub proof fn lemma_overview_is_left_for_a_tile(
    workspace: &mut Workspace,
    pick: Option<usize>,
    change: OverviewChange,
)
    requires
        call_ensures(Workspace::leave_overview, (workspace, pick), change),
        old(workspace)@.wf(),
        old(workspace)@.windows.len() <= usize::MAX,
    ensures
        final(workspace)@.overview is None,
        ({
            let tabs = tabs_of(old(workspace)@.windows, old(workspace)@.active_project);
            &&& pick is Some && pick->0 < tabs.len() ==> change is Switched
                && final(workspace)@.active_window == tabs[pick->0 as int]
            &&& pick is None || pick->0 >= tabs.len() ==> change is Repaint
                && final(workspace)@.active_window == old(workspace)@.active_window
        }),
{
    let s = old(workspace)@;
    let tabs = tabs_of(s.windows, s.active_project);
    lemma_tabs_among(s.windows, s.active_project, s.windows.len());
    if pick is Some && pick->0 < tabs.len() {
        assert(0 <= tabs[pick->0 as int] < s.windows.len());
    }
}

/// A tab of the right sidebar that is selected is the one shown.
pub proof fn lemma_sidebar_tab_is_selected(
    view: &mut ViewState,
    tab: ObservatoryTab,
    switch: Option<TabSwitch>,
)
    requires
        call_ensures(ViewState::select_observatory_tab, (view, tab), switch),
    ensures
        final(view).observatory_tab == tab,
        final(view).sidebar == old(view).sidebar,
        switch is Some <==> tab != old(view).observatory_tab,
{
}

/// Scrolling goes one step its way and stops at the start.
pub proof fn lemma_list_is_scrolled(at: usize, up: bool, to: usize)
    requires
        call_ensures(scroll_list, (at, up), to),
    ensures
        up && at > 0 ==> to == at - 1,
        up && at == 0 ==> to == 0,
        !up && at < usize::MAX ==> to == at + 1,
{
}

/// Only a watching role may not drive its Pane.
pub proof fn lemma_who_may_drive_a_pane(role: PaneAttachRole, can: bool)
    requires
        call_ensures(PaneAttachRole::can_control, (&role,), can),
    ensures
        can <==> role is Controller || role is Takeover,
{
}

/// A client that goes away is listed no more, and no other leaves.
pub proof fn lemma_client_leaves(clients: &mut Clients, token: Token, changed: bool, i: int)
    requires
        call_ensures(Clients::remove, (clients, token), changed),
    ensures
        client_at(old(clients).list@, token, 0) is None ==> final(clients).list@
            == old(clients).list@,
        client_at(old(clients).list@, token, 0) == Some(i) ==> final(clients).list@
            == old(clients).list@.remove(i),
        changed <==> final(clients).cols != old(clients).cols
            || final(clients).rows != old(clients).rows,
{
}

/// A client that connects is listed last and shows nothing yet.
pub proof fn lemma_client_connects(clients: &mut Clients, token: Token)
    requires
        call_ensures(Clients::connect, (clients, token), ()),
    ensures
        final(clients).list@.len() == old(clients).list@.len() + 1,
        final(clients).list@.drop_last() == old(clients).list@,
        final(clients).list@.last().token == token && !final(clients).list@.last().attached,
        final(clients).list@.last().direct is None && !final(clients).list@.last().dead,
        final(clients).cols == old(clients).cols && final(clients).rows == old(clients).rows,
{
    assert(final(clients).list@.drop_last() =~= old(clients).list@);
}

/// A client is painted what it shows: its one Pane, nothing where it came for a
/// Pane only, else the Workspace.
pub proof fn lemma_client_is_painted_what_it_shows(
    clients: Clients,
    token: Token,
    target: RepaintTarget,
    i: int,
)
    requires
        call_ensures(Clients::repaint_target, (&clients, token), target),
    ensures
        client_at(clients.list@, token, 0) == Some(i) ==> {
            let c = clients.list@[i];
            &&& c.direct is Some ==> target == RepaintTarget::Pane(c.direct->0.pane)
            &&& c.direct is None && c.direct_only ==> target is Nothing
            &&& c.direct is None && !c.direct_only ==> target is Workspace
        },
{
}

/// An agent waits for someone with a permission or a question, and only so.
pub proof fn lemma_agent_needs_a_human(status: AgentStatus, waits: bool)
    requires
        call_ensures(AgentStatus::needs_human, (status,), waits),
    ensures
        waits <==> status is Permission || status is Question,
{
}

/// What was recorded of an agent is its status, and what it left is told.
pub proof fn lemma_detection_changes_the_pane(
    pane: &mut AgentPane,
    v: Verdict,
    now: u64,
    dwell: u64,
    effect: DetectionEffect,
)
    requires
        call_ensures(AgentPane::apply_agent_detection, (pane, v, now, dwell), effect),
    ensures
        effect.recorded is Some ==> final(pane).status() == effect.recorded->0 && v.status
            == effect.recorded,
        effect.left is Some ==> effect.left == Some(old(pane).status()) && final(pane).status()
            != old(pane).status(),
        effect.recorded is None && !effect.bound ==> final(pane).status() == old(pane).status(),
        final(pane).foreground_pid == v.foreground_pid,
        effect.bound ==> final(pane).agent is Some && final(pane).agent->0.id == v.agent->0,
{
    lemma_recorded_status_holds(*old(pane), v, now, dwell);
    lemma_agent_bound_by_name(*old(pane), v, now, dwell);
}

/// A change that settles is told with what it was before and is now.
pub proof fn lemma_settled_change_is_told(pane: &mut AgentPane, now: u64, effect: SettleEffect)
    requires
        call_ensures(AgentPane::flush_detection_due, (pane, now), effect),
    ensures
        effect.transition is Some <==> final(pane).status() != old(pane).status(),
        effect.transition is Some ==> effect.transition->0.previous == old(pane).status()
            && effect.transition->0.status == final(pane).status(),
        old(pane).candidate is None ==> *final(pane) == *old(pane),
{
    lemma_settled_change_is_reported(*old(pane), now);
}

/// The verifier's own word decides a submission: only "approved" approves.
pub proof fn lemma_submitted_word_decides(
    runs: &mut Orchestrations,
    workspace: Workspace,
    kind: OrchestrationKind,
    token: u64,
    status: SubmissionStatus,
    verdict: Option<String>,
    summary: &str,
    artifacts: Vec<ArtifactClaim>,
    validated: bool,
    now: u64,
    out: Submitted,
)
    requires
        call_ensures(
            Orchestrations::submit,
            (
                runs,
                &workspace,
                kind,
                token,
                status,
                verdict,
                summary,
                &artifacts,
                validated,
                now,
            ),
            out,
        ),
    ensures
        out.step is Decide ==> {
            let told = out.step->Decide_event.verdict;
            &&& told is Some <==> kind is Workflow && verdict is Some
            &&& told is Some ==> (told->0 is Approved <==> verdict->0@ == "approved"@)
            &&& told is Some ==> (told->0 is Replan <==> verdict->0@ == "replan"@)
            &&& out.step->Decide_event.token == token
            &&& out.step->Decide_event.status == status
        },
        kind is Workflow ==> final(runs).relays == old(runs).relays,
        kind is Relay ==> final(runs).workflows == old(runs).workflows,
{
    if out.step is Decide {
        lemma_verdict_is_the_verifiers_word(
            *old(runs),
            *final(runs),
            workspace@,
            kind,
            token,
            status,
            verdict,
            summary@,
            artifacts@,
            validated,
            now,
            out,
        );
    }
}

/// An instruction that is replaced is given way to by the new text, in its place;
/// one that is refused changes nothing.
pub proof fn lemma_instruction_is_replaced(
    queue: &mut InstructionQueue,
    id: u64,
    author: InstructionAuthor,
    text: String,
    live: Vec<LiveInvocation>,
    durable: bool,
    sequence: u64,
    result: InstructionCommandResult,
    k: int,
)
    requires
        call_ensures(
            InstructionQueue::instruction_command,
            (queue, InstructionCommand::Replace { id, author, text }, &live, durable, sequence),
            result,
        ),
        old(queue).wf(),
        old(queue).next_id < u64::MAX,
    ensures
        !result.accepted ==> *final(queue) == *old(queue),
        result.accepted && instruction_at(old(queue).items@, id, 0) == Some(k)
            && 0 <= k < old(queue).items@.len() ==> final(queue).items@.len()
            == old(queue).items@.len() && final(queue).items@[k].text == text
            && final(queue).items@[k].author == author && final(queue).items@[k].pane
            == old(queue).items@[k].pane && final(queue).items@[k].id == result.id,
        result.accepted ==> final(queue).next_id == old(queue).next_id + 1,
{
}

/// A resize moves the divider along the axis of its direction, by a twentieth.
pub proof fn lemma_resize_goes_its_way(dir: FocusDir, step: (SplitDir, i16))
    requires
        call_ensures(resize_command, (dir,), step),
    ensures
        dir is Up || dir is Down ==> step.0 is Vertical,
        dir is Left || dir is Right ==> step.0 is Horizontal,
        dir is Up || dir is Left ==> step.1 == -500,
        dir is Down || dir is Right ==> step.1 == 500,
{
}

/// A list shows the Project's own or the whole Workspace's, by turns.
pub proof fn lemma_scope_is_toggled(scope: SidebarScope, other: SidebarScope)
    requires
        call_ensures(SidebarScope::toggle, (scope,), other),
    ensures
        other is Workspace <==> scope is Project,
{
}

/// A stored preference stands for its scope.
pub proof fn lemma_stored_scope(workspace: bool, scope: SidebarScope)
    requires
        call_ensures(SidebarScope::from_workspace_flag, (workspace,), scope),
    ensures
        scope is Workspace <==> workspace,
{
}

} // verus!
