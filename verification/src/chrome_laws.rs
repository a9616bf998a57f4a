//! What the frame around the Panes can rely on: the room that each part has,
//! what the overview does with its keys, and what the status line shows.
use crate::canvas::{file_rows, tab_dividers, tab_rects, Canvas};
use crate::chrome_text::{centered, spaces};
use crate::hierarchy::{project_at, tabs_of, window_of, Win, WorkspaceState};
use crate::overview::{
    arrow_step, digit_tile, letter_step, overview_keys, stepped, GridStep, OverviewKeys,
};
use crate::pointing::PointerState;
use crate::scope::SidebarScope;
use crate::status::{
    arrow_style, button_pieces, observatory_pieces, session_values, tab_core, tab_pieces,
    tab_width, SessionFacts, StatusContent, StatusStyles,
};
use crate::text::{decimal, lemma_decimal_is_the_number, number_of};
use crate::types::Rect;
use crate::viewport::{first_item, DrawnLists, RunningAgent};
use vstd::prelude::*;

verus! {

/// The left sidebar is there when it is switched on and the screen has the room:
/// narrow on a narrow screen, as wide as was asked for on a wide one, within its
/// bounds.
pub proof fn lemma_left_sidebar_has_its_width(c: Canvas)
    ensures
        !c.sidebar || c.cols < 72 || c.rows < 8 ==> c.left() == 0,
        c.sidebar && 72 <= c.cols < 100 && c.rows >= 8 ==> c.left() == 18,
        c.sidebar && c.cols >= 100 && c.rows >= 8 ==> {
            &&& 16 <= c.sidebar_width <= 40 ==> c.left() == c.sidebar_width
            &&& c.sidebar_width < 16 ==> c.left() == 16
            &&& c.sidebar_width > 40 ==> c.left() == 40
        },
{
}

/// The right sidebar is there when it is switched on and the screen has the
/// room; it takes what was asked for within its bounds and leaves the Panes
/// forty columns.
pub proof fn lemma_right_sidebar_has_its_width(c: Canvas)
    ensures
        !c.file_sidebar || c.cols < 88 || c.rows < 8 ==> c.right() == 0,
        c.file_sidebar && c.cols >= 88 && c.rows >= 8 ==> {
            &&& 20 <= c.right() <= 52
            &&& c.left() + c.right() + 40 <= c.cols
            &&& 22 <= c.file_sidebar_width <= 52 && c.left() + c.file_sidebar_width + 40 <= c.cols
                ==> c.right() == c.file_sidebar_width
            &&& c.left() + 92 <= c.cols && c.file_sidebar_width > 52 ==> c.right() == 52
            &&& c.left() + 62 <= c.cols && c.file_sidebar_width < 22 ==> c.right() == 22
        },
{
}

/// The status line takes the first or the last row, as it was set; the Panes
/// have all the others.
pub proof fn lemma_status_line_has_its_row(c: Canvas)
    requires
        c.rows > 0,
    ensures
        c.chrome().status_row is Some <==> c.status && c.rows >= 2,
        c.chrome().status_row is None ==> c.chrome().area.y == 0 && c.chrome().area.h == c.rows,
        c.chrome().status_row is Some && c.status_top ==> {
            &&& c.chrome().status_row->0 == 0
            &&& c.chrome().area.y == 1
            &&& c.chrome().area.h + 1 == c.rows
        },
        c.chrome().status_row is Some && !c.status_top ==> {
            &&& c.chrome().status_row->0 + 1 == c.rows
            &&& c.chrome().area.y == 0
            &&& c.chrome().area.h + 1 == c.rows
        },
{
}

/// A toast lies in the upper right corner of the Panes, a row below their top,
/// and only where they have the room.
pub proof fn lemma_toast_lies_in_its_corner(c: Canvas)
    requires
        c.cols > 0,
        c.rows > 0,
    ensures
        c.toast() is Some <==> c.chrome().area.w >= 24 && c.chrome().area.h >= 4,
        c.toast() matches Some(r) ==> {
            let area = c.chrome().area;
            &&& r.h == 3 && r.y == area.y + 1
            &&& r.x + r.w == area.x + area.w
            &&& r.w <= 44 && r.w <= area.w
            &&& area.w >= 44 ==> r.w == 44
            &&& area.w <= 44 ==> r.w == area.w
        },
{
    crate::canvas::lemma_canvas_divided(c);
}

/// The status line from left to right: the Workspace, a gap, the Tabs, the text
/// at the end, and the tabs of the right sidebar. None lies over another.
pub proof fn lemma_status_line_in_order(c: Canvas, name_width: int, text_width: int)
    requires
        c.cols > 0,
        c.rows > 0,
        0 <= name_width,
        0 <= text_width,
    ensures
        c.left() > 0 ==> c.button_width(name_width) + 1 == c.left(),
        c.left() == 0 && name_width + 4 <= u16::MAX ==> c.button_width(name_width) == name_width
            + 4,
        c.tab_bar(name_width, text_width) is Some <==> c.chrome().status_row is Some,
        c.tab_bar(name_width, text_width) matches Some(bar) ==> {
            &&& Some(bar.y) == c.chrome().status_row
            &&& bar.h == 1
            &&& c.button_width(name_width) < c.cols ==> bar.x == c.button_width(name_width) + 1
            &&& bar.w > 0 ==> bar.x + bar.w + c.right() <= c.cols
        },
        c.status_right(name_width, text_width) matches Some(text) ==> {
            &&& text.x + text.w + c.right() == c.cols
            &&& text.h == 1 && 1 <= text.w <= 48
            &&& text_width <= 48 ==> text.w == text_width
            &&& Some(text.y) == c.chrome().status_row
        },
        c.tab_bar(name_width, text_width) matches Some(bar) ==> c.status_right(
            name_width,
            text_width,
        ) is Some && bar.w > 0 ==> bar.x + bar.w <= c.status_right(name_width, text_width)->0.x,
        c.observatory_tabs() is Some <==> c.chrome().status_row is Some && c.right() > 0,
        c.observatory_tabs() matches Some(tabs) ==> {
            &&& Some(tabs.y) == c.chrome().status_row
            &&& tabs.x + tabs.w == c.cols
            &&& tabs.w + 1 == c.right()
        },
        c.action_bar() matches Some(bar) ==> {
            &&& bar.y + 1 == c.chrome().area.y + c.chrome().area.h
            &&& bar.x + bar.w == c.cols
            &&& bar.w + 1 == c.right()
        },
{
    crate::canvas::lemma_canvas_divided(c);
}

/// The file tree has the rows between its head and its foot, fewer by two where
/// changes are listed above it; a row shows the entry that is as far down.
pub proof fn lemma_file_tree_has_its_rows(area: Rect, changes: bool, row: u16)
    requires
        area.y + area.h <= 60_000,
    ensures
        ({
            let rows = file_rows(area, changes);
            let head = if changes {
                5int
            } else {
                3int
            };
            &&& rows.tree_start == area.y + head
            &&& area.h >= head + 3 ==> rows.tree_end + 3 == area.y + area.h
            &&& area.h < head + 3 ==> rows.tree_end == rows.tree_start
            &&& rows.divider is Some <==> changes
            &&& changes ==> rows.divider->0 + 1 == rows.tree_start
            &&& rows.slot(row) is Some <==> rows.tree_start <= row < rows.tree_end
            &&& rows.slot(row) is Some ==> rows.tree_start + rows.slot(row)->0 == row
        }),
{
}

/// A zoomed Pane is the only one shown, in all the room, and has no dividers.
pub proof fn lemma_zoomed_pane_is_alone(win: Win, area: Rect)
    ensures
        win.zoomed is Some ==> {
            &&& tab_rects(win, area).len() == 1
            &&& tab_rects(win, area)[0].pane == win.zoomed->0
            &&& tab_rects(win, area)[0].rect == area
            &&& tab_dividers(win, area).len() == 0
        },
        win.zoomed is None ==> tab_rects(win, area) == crate::layout::rects(win.layout, area),
{
}

/// A step in the overview goes one tile its way and stays on the grid; a step
/// back undoes it.
pub proof fn lemma_step_over_the_tiles(sel: int, cols: int, n: int)
    requires
        0 <= sel < n,
        1 <= cols,
    ensures
        sel + 1 < n ==> stepped(sel, GridStep::Right, cols, n) == sel + 1,
        sel + 1 == n ==> stepped(sel, GridStep::Right, cols, n) == sel,
        sel > 0 ==> stepped(sel, GridStep::Left, cols, n) == sel - 1,
        sel == 0 ==> stepped(sel, GridStep::Left, cols, n) == 0,
        sel + cols < n ==> stepped(sel, GridStep::Down, cols, n) == sel + cols,
        sel + cols >= n ==> stepped(sel, GridStep::Down, cols, n) == sel,
        sel >= cols ==> stepped(sel, GridStep::Up, cols, n) == sel - cols,
        sel + cols < n ==> stepped(
            stepped(sel, GridStep::Down, cols, n),
            GridStep::Up,
            cols,
            n,
        ) == sel,
        sel + 1 < n ==> stepped(
            stepped(sel, GridStep::Right, cols, n),
            GridStep::Left,
            cols,
            n,
        ) == sel,
{
}

/// The keys that step: the arrows and the letters beside each other on the home
/// row. A digit names a tile, the first by one and the tenth by nought.
pub proof fn lemma_keys_that_step(b: u8)
    ensures
        arrow_step(b) == Some(GridStep::Up) <==> b == 'A' as u8,
        arrow_step(b) == Some(GridStep::Down) <==> b == 'B' as u8,
        arrow_step(b) == Some(GridStep::Right) <==> b == 'C' as u8,
        arrow_step(b) == Some(GridStep::Left) <==> b == 'D' as u8,
        letter_step(b) == Some(GridStep::Up) <==> b == 'k' as u8,
        letter_step(b) == Some(GridStep::Down) <==> b == 'j' as u8,
        letter_step(b) == Some(GridStep::Right) <==> b == 'l' as u8,
        letter_step(b) == Some(GridStep::Left) <==> b == 'h' as u8,
        '1' as u8 <= b <= '9' as u8 ==> digit_tile(b) == b - '1' as u8,
        b == '0' as u8 ==> digit_tile(b) == 9,
{
}

/// Each key of the overview in turn: enter picks the tile that is marked, a
/// digit the tile that it names, escape and the letters for quitting leave, and
/// a step marks another tile and goes on.
pub proof fn lemma_overview_reads_its_keys(bytes: Seq<u8>, i: int, sel: int, cols: int, n: int)
    requires
        0 <= i < bytes.len(),
        0 <= sel < n <= usize::MAX,
    ensures
        ({
            let b = bytes[i];
            let keys = overview_keys(bytes, i, sel, cols, n);
            let digit = '0' as u8 <= b <= '9' as u8;
            &&& b == 13 || b == 10 ==> keys == OverviewKeys::Pick(sel as usize)
            &&& b == 'q' as u8 || b == 'w' as u8 || b == 3 ==> keys is Cancel
            &&& b == 27 && !(i + 1 < bytes.len() && bytes[i + 1] == '[' as u8) ==> keys is Cancel
            &&& digit && digit_tile(b) < n ==> keys == OverviewKeys::Pick(digit_tile(b) as usize)
            &&& b == 'l' as u8 ==> keys == overview_keys(
                bytes,
                i + 1,
                stepped(sel, GridStep::Right, cols, n),
                cols,
                n,
            )
            &&& b == 'h' as u8 ==> keys == overview_keys(
                bytes,
                i + 1,
                stepped(sel, GridStep::Left, cols, n),
                cols,
                n,
            )
            &&& b == 'j' as u8 ==> keys == overview_keys(
                bytes,
                i + 1,
                stepped(sel, GridStep::Down, cols, n),
                cols,
                n,
            )
            &&& b == 'k' as u8 ==> keys == overview_keys(
                bytes,
                i + 1,
                stepped(sel, GridStep::Up, cols, n),
                cols,
                n,
            )
            &&& b == 27 && i + 2 < bytes.len() && bytes[i + 1] == '[' as u8 && bytes[i + 2]
                == 'C' as u8 ==> keys == overview_keys(
                bytes,
                i + 3,
                stepped(sel, GridStep::Right, cols, n),
                cols,
                n,
            )
            &&& b == 27 && i + 2 < bytes.len() && bytes[i + 1] == '[' as u8 && bytes[i + 2]
                == 'A' as u8 ==> keys == overview_keys(
                bytes,
                i + 3,
                stepped(sel, GridStep::Up, cols, n),
                cols,
                n,
            )
        }),
        overview_keys(bytes, bytes.len() as int, sel, cols, n) == OverviewKeys::Stay(sel as usize),
{
}

/// Leaving the overview closes it. A tile that was picked shows its Tab of the
/// active Project; without one the focus stays where it was.
pub proof fn lemma_overview_is_left(s: WorkspaceState, tile: usize)
    requires
        s.wf(),
        s.windows.len() <= usize::MAX,
    ensures
        s.leave_overview(None).overview is None,
        s.leave_overview(None).active_window == s.active_window,
        s.leave_overview(None).windows == s.windows,
        s.leave_overview(Some(tile)).overview is None,
        s.leave_overview(Some(tile)).windows == s.windows,
        tile < tabs_of(s.windows, s.active_project).len() ==> s.leave_overview(
            Some(tile),
        ).active_window == tabs_of(s.windows, s.active_project)[tile as int],
        tile >= tabs_of(s.windows, s.active_project).len() ==> s.leave_overview(
            Some(tile),
        ).active_window == s.active_window,
{
    crate::tabs::lemma_tabs_among(s.windows, s.active_project, s.windows.len());
}

/// The marked tile is one of the Project's Tabs: the one that was marked, or the
/// last where that is gone.
pub proof fn lemma_marked_tile_is_there(s: WorkspaceState)
    ensures
        ({
            let n = tabs_of(s.windows, s.active_project).len();
            &&& s.overview is Some && s.overview->0 < n ==> s.selected_tile() == s.overview->0
            &&& s.overview is Some && n > 0 && s.overview->0 >= n ==> s.selected_tile() == n - 1
            &&& n > 0 ==> 0 <= s.selected_tile() < n
        }),
{
}

/// Typing into the overview: nothing happens while it is closed, enter shows the
/// marked Tab, and what changed is painted.
pub proof fn lemma_typing_into_the_overview(s: WorkspaceState, bytes: Seq<u8>, cols: int)
    ensures
        s.overview is None ==> s.overview_typed(bytes, cols) == s && s.overview_change(
            bytes,
            cols,
        ) is Nothing,
        s.overview is Some ==> {
            let n = tabs_of(s.windows, s.active_project).len() as int;
            let keys = overview_keys(bytes, 0, s.selected_tile(), cols, n);
            let after = s.overview_typed(bytes, cols);
            let change = s.overview_change(bytes, cols);
            &&& keys is Stay ==> {
                &&& after.overview == Some(keys->Stay_0)
                &&& after.windows == s.windows && after.active_window == s.active_window
                &&& change is Nothing <==> s.overview == Some(keys->Stay_0)
                &&& !(change is Switched)
            }
            &&& keys is Cancel ==> after.overview is None && after.active_window == s.active_window
                && change is Repaint
            &&& keys is Pick ==> {
                &&& after == s.leave_overview(Some(keys->Pick_0))
                &&& change is Switched <==> keys->Pick_0 < n
                &&& !(change is Nothing)
            }
        },
{
}

/// The right sidebar lists the agents of the active Project, or of the whole
/// Workspace where that was asked for, each in the place of its Project.
pub proof fn lemma_agent_has_its_place(
    s: WorkspaceState,
    agent: RunningAgent,
    scope: SidebarScope,
    w: int,
)
    requires
        window_of(s.windows, agent.pane) == Some(w),
        0 <= w < s.windows.len(),
    ensures
        s.agent_place(agent, scope) is Some <==> scope is Workspace || s.windows[w].project
            == s.active_project,
        s.agent_place(agent, scope) matches Some(place) ==> {
            &&& place.pane == agent.pane
            &&& place.started_at == agent.started_at
            &&& project_at(s.projects, s.windows[w].project) matches Some(p) ==> place.project
                == p as usize
        },
{
}

proof fn lemma_placed_upto(
    s: WorkspaceState,
    agents: Seq<RunningAgent>,
    scope: SidebarScope,
    n: nat,
    k: int,
)
    requires
        0 <= k < n <= agents.len(),
        s.agent_place(agents[k], scope) is Some,
    ensures
        s.agent_places(agents, scope, n).contains(s.agent_place(agents[k], scope)->0),
    decreases n,
{
    let out = s.agent_places(agents, scope, n);
    let rest = s.agent_places(agents, scope, (n - 1) as nat);
    let place = s.agent_place(agents[k], scope)->0;
    if k == n - 1 {
        assert(out[out.len() - 1] == place);
    } else {
        lemma_placed_upto(s, agents, scope, (n - 1) as nat, k);
        let at = choose|at: int| 0 <= at < rest.len() && rest[at] == place;
        assert(out[at] == place);
    }
}

/// Every agent that has a place in the sidebar is listed there.
pub proof fn lemma_every_agent_is_listed(
    s: WorkspaceState,
    agents: Seq<RunningAgent>,
    scope: SidebarScope,
    k: int,
)
    requires
        0 <= k < agents.len(),
        s.agent_place(agents[k], scope) is Some,
    ensures
        exists|at: int|
            0 <= at < s.agent_places(agents, scope, agents.len()).len() && (
            #[trigger] s.agent_places(agents, scope, agents.len())[at]).pane == agents[k].pane,
{
    lemma_placed_upto(s, agents, scope, agents.len(), k);
    let out = s.agent_places(agents, scope, agents.len());
    let place = s.agent_place(agents[k], scope)->0;
    let at = choose|at: int| 0 <= at < out.len() && out[at] == place;
    assert(s.agent_places(agents, scope, agents.len())[at].pane == agents[k].pane);
}

/// A list that was drawn is scrolled to the first card shown; one that was not
/// stays where it was.
pub proof fn lemma_drawn_list_keeps_its_place(p: PointerState, shown: bool, drawn: DrawnLists)
    ensures
        ({
            let after = p.synced(shown, drawn);
            &&& !shown ==> after.agents_scroll == p.agents_scroll && after.servers_scroll
                == p.servers_scroll
            &&& shown && drawn.agents@.len() > 0 ==> after.agents_scroll == drawn.agents@[0].item
            &&& shown && drawn.servers@.len() > 0 ==> after.servers_scroll
                == drawn.servers@[0].item
            &&& shown && drawn.agents@.len() == 0 ==> after.agents_scroll == 0
            &&& shown && drawn.servers@.len() == 0 ==> after.servers_scroll == 0
            &&& after.divider == p.divider && after.selection == p.selection
        }),
        drawn.projects@.len() > 0 ==> first_item(drawn.projects@) == drawn.projects@[0].item,
{
}

/// A Tab is labelled by its place, counted from one, and by its name where it
/// has one.
pub proof fn lemma_tab_label_says_its_place(n: nat, name: Option<String>) -> (place: Seq<char>)
    ensures
        number_of(place) == n + 1,
        name is None ==> tab_core(n as int, name) == place,
        name is Some ==> tab_core(n as int, name) == place + ":"@ + name->0@,
{
    lemma_decimal_is_the_number((n + 1) as nat);
    decimal((n + 1) as nat)
}

/// A label has two cells to each side and never fewer than eight in all.
pub proof fn lemma_tab_label_has_room(core: Seq<char>)
    requires
        crate::chrome_text::cell_width(core) <= 60_000,
    ensures
        tab_width(core) >= 8,
        tab_width(core) >= crate::chrome_text::cell_width(core) + 4,
        tab_width(core) == 8 || tab_width(core) == crate::chrome_text::cell_width(core) + 4,
{
}

/// A centered text has the same room to both sides, up to one cell, and the odd
/// cell stands on the side that was asked for.
pub proof fn lemma_text_is_centered(text: Seq<char>, text_width: int, width: int, lead: bool) -> (
    sides: (int, int))
    requires
        0 <= text_width <= width,
    ensures
        sides.0 + text_width + sides.1 == width,
        sides.0 >= 0 && sides.1 >= 0,
        !lead ==> sides.0 <= sides.1 <= sides.0 + 1,
        lead ==> sides.1 <= sides.0 <= sides.1 + 1,
        centered(text, text_width, width, lead) == spaces(sides.0) + text + spaces(sides.1),
        spaces(sides.0).len() == sides.0,
        spaces(sides.1).len() == sides.1,
{
    let room = width - text_width;
    let left = if lead {
        (room + 1) / 2
    } else {
        room / 2
    };
    (left, room - left)
}

/// What a template can name, and what it gets: a Tab without a name goes by its
/// place, counted from one, and the zoom is named only while there is one.
pub proof fn lemma_what_a_template_can_name(facts: SessionFacts)
    ensures
        ({
            let values = session_values(facts);
            &&& values.len() == 9
            &&& values[0] == ("hostname"@, facts.hostname@)
            &&& values[1] == ("workspace"@, facts.workspace@)
            &&& values[2] == ("project"@, facts.project@)
            &&& values[3].0 == "tab"@
            &&& facts.tab_name is Some ==> values[3].1 == facts.tab_name->0@
            &&& facts.tab_name is None ==> number_of(values[3].1) == facts.tab_position + 1
            &&& values[4].0 == "pane"@
            &&& number_of(values[4].1) == facts.pane
            &&& values[5] == ("terminal_title"@, facts.terminal_title@)
            &&& values[6].0 == "agent"@
            &&& facts.agent is Some ==> values[6].1 == facts.agent->0@
            &&& facts.agent is None ==> values[6].1.len() == 0
            &&& values[7].0 == "agent_status"@
            &&& facts.agent_status is Some ==> values[7].1 == facts.agent_status->0@
            &&& facts.agent_status is None ==> values[7].1.len() == 0
            &&& values[8].0 == "zoom"@
            &&& facts.zoomed ==> values[8].1 == "ZOOM"@
            &&& !facts.zoomed ==> values[8].1.len() == 0
        }),
{
    lemma_decimal_is_the_number((facts.tab_position + 1) as nat);
    lemma_decimal_is_the_number(facts.pane as nat);
}

/// The facts of the focused Pane are those of the shown Tab and the active
/// Project.
pub proof fn lemma_facts_of_the_focused_pane(
    s: WorkspaceState,
    hostname: String,
    workspace: String,
    title: String,
    agent: Option<String>,
    status: Option<String>,
    p: int,
)
    requires
        project_at(s.projects, s.active_project) == Some(p),
    ensures
        ({
            let facts = s.focused_facts(hostname, workspace, title, agent, status);
            let tab = s.windows[s.active_window];
            &&& facts is Some
            &&& facts->0.hostname == hostname && facts->0.workspace == workspace
            &&& facts->0.project == s.projects[p].name
            &&& facts->0.tab_name == tab.name
            &&& facts->0.pane == tab.active.0
            &&& facts->0.terminal_title == title
            &&& facts->0.agent == agent && facts->0.agent_status == status
            &&& facts->0.zoomed <==> tab.zoomed is Some
        }),
{
}

/// In the Tab bar each Tab stands where its slot does, and the active one alone
/// is marked.
pub proof fn lemma_active_tab_is_marked(c: StatusContent, s: StatusStyles, n: nat, k: int)
    requires
        0 <= k < n <= c.bar.tabs@.len(),
    ensures
        tab_pieces(c, s, n).len() == n,
        ({
            let piece = tab_pieces(c, s, n)[k];
            let slot = c.bar.tabs@[k];
            &&& piece.at == slot.rect.x
            &&& slot.item == c.active_tab ==> piece.style == s.active@ && piece.after == s.base@
            &&& slot.item != c.active_tab ==> piece.style.len() == 0 && piece.after.len() == 0
        }),
    decreases n,
{
    if k < n - 1 {
        lemma_active_tab_is_marked(c, s, (n - 1) as nat, k);
    } else if n > 1 {
        lemma_active_tab_is_marked(c, s, (n - 1) as nat, 0);
    } else {
        assert(tab_pieces(c, s, 0).len() == 0);
    }
}

/// Of the tabs of the right sidebar the selected one alone is marked.
pub proof fn lemma_selected_sidebar_tab_is_marked(c: StatusContent, s: StatusStyles, n: nat, k: int)
    requires
        0 <= k < n <= c.slots@.len(),
    ensures
        observatory_pieces(c, s, n).len() == n,
        ({
            let piece = observatory_pieces(c, s, n)[k];
            let slot = c.slots@[k];
            &&& piece.at == slot.rect.x
            &&& slot.tab == c.selected ==> piece.style == s.button@ && piece.after == s.base@
            &&& slot.tab != c.selected ==> piece.style.len() == 0 && piece.after.len() == 0
        }),
    decreases n,
{
    if k < n - 1 {
        lemma_selected_sidebar_tab_is_marked(c, s, (n - 1) as nat, k);
    } else if n > 1 {
        lemma_selected_sidebar_tab_is_marked(c, s, (n - 1) as nat, 0);
    } else {
        assert(observatory_pieces(c, s, 0).len() == 0);
    }
}

/// An arrow of the Tab bar looks alive where it leads somewhere; a control is
/// drawn where it has its place, and not at all without one.
pub proof fn lemma_controls_of_the_tab_bar(
    hidden: bool,
    c: StatusContent,
    s: StatusStyles,
    rect: Option<Rect>,
    text: Seq<char>,
)
    ensures
        hidden ==> arrow_style(hidden, s) == s.button@,
        !hidden ==> arrow_style(hidden, s) == s.disabled@,
        rect is None ==> crate::status::control(rect, text, s.button@, s.base@).len() == 0,
        rect is Some ==> {
            &&& crate::status::control(rect, text, s.button@, s.base@).len() == 1
            &&& crate::status::control(rect, text, s.button@, s.base@)[0].at == rect->0.x
            &&& crate::status::control(rect, text, s.button@, s.base@)[0].style == s.button@
            &&& crate::status::control(rect, text, s.button@, s.base@)[0].after == s.base@
        },
        button_pieces(c, s).len() == 2,
        button_pieces(c, s)[0].at == 0,
        button_pieces(c, s)[0].style == s.button@,
        button_pieces(c, s)[1].style == s.divider@,
{
}

} // verus!
