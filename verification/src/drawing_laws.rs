//! What is drawn where: cells, lines and cards, and what each of them says.
use crate::canvas::Canvas;
use crate::cards::{
    agent_keys, agent_style, first_note, project_keys, project_line, run_text, ProjectWorktree,
    RunRole,
};
use crate::detection::AgentStatus;
use crate::frame::{selected_among, Chrome, Scene};
use crate::layout::Divider;
use crate::metadata::Note;
use crate::paint::{
    divider_text, goto, placed, repeated, toast_text, upright, MarkText, Panel,
};
use crate::path_text::compacted;
use crate::rail::{
    agent_card_marks, agent_detail, agent_title, change_counts, change_marks, count_text, dotted,
    file_row_marks, file_text, padding, place_before, project_card_marks, project_title,
    shown_range, status_glyph, AgentCard, AgentPlace, CardSlot, FileRow, GitStats, ListStyles,
    ProjectCard, ProjectStyles,
};
use crate::scope::SidebarScope;
use crate::sidebars::{files_in_view, files_status, files_title, FileView};
use crate::text::{decimal, lemma_decimal_is_the_number, number_of};
use crate::tiles::{
    grid_of, mini_glyph, sample, shade, tile_color, tile_inside, tile_label, MiniCell, PaneGrid,
};
use crate::types::{PaneId, Rect};
use vstd::prelude::*;

verus! {

/// A cell is addressed by its row and its column in this order, both counted
/// from one.
pub proof fn lemma_cell_is_addressed(row: nat, col: nat) -> (parts: (Seq<char>, Seq<char>))
    ensures
        number_of(parts.0) == row + 1,
        number_of(parts.1) == col + 1,
        goto(row as int, col as int) == "\u{1b}["@ + parts.0 + ";"@ + parts.1 + "H"@,
{
    lemma_decimal_is_the_number((row + 1) as nat);
    lemma_decimal_is_the_number((col + 1) as nat);
    (decimal((row + 1) as nat), decimal((col + 1) as nat))
}

/// A line downwards has a bar in each of its rows, and two of them that meet are
/// one.
pub proof fn lemma_line_downwards(x: int, from: int, mid: int, to: int)
    requires
        from <= mid <= to,
    ensures
        upright(x, from, from).len() == 0,
        upright(x, from, from + 1) == goto(from, x) + "\u{2502}"@,
        upright(x, from, to) == upright(x, from, mid) + upright(x, mid, to),
    decreases to - mid,
{
    assert(upright(x, from, from).len() == 0);
    assert(upright(x, from, from + 1) =~= goto(from, x) + "\u{2502}"@);
    if mid < to {
        lemma_line_downwards(x, from, mid, to - 1);
        let last = goto(to - 1, x) + "\u{2502}"@;
        assert(upright(x, from, to) =~= upright(x, from, to - 1) + last);
        assert(upright(x, mid, to) =~= upright(x, mid, to - 1) + last);
        assert(upright(x, from, to) =~= upright(x, from, mid) + upright(x, mid, to));
    } else {
        assert(upright(x, mid, to).len() == 0);
        assert(upright(x, from, to) =~= upright(x, from, mid) + upright(x, mid, to));
    }
}

/// Between two Panes side by side the line runs downwards, between two Panes
/// below one another it runs across, as long as the divider is.
pub proof fn lemma_divider_is_drawn(d: Divider)
    ensures
        d.dir is Horizontal ==> divider_text(d) == upright(
            d.rect.x as int,
            d.rect.y as int,
            d.rect.y + d.rect.h,
        ),
        d.dir is Vertical ==> {
            let line = divider_text(d).skip(goto(d.rect.y as int, d.rect.x as int).len() as int);
            &&& goto(d.rect.y as int, d.rect.x as int).is_prefix_of(divider_text(d))
            &&& line.len() == d.rect.w
            &&& forall|k: int| 0 <= k < line.len() ==> #[trigger] line[k] == '\u{2500}'
        },
{
    let head = goto(d.rect.y as int, d.rect.x as int);
    let line = repeated('\u{2500}', d.rect.w as int);
    assert((head + line).skip(head.len() as int) =~= line);
    assert(head.is_prefix_of(head + line));
}

/// A sidebar stands where it belongs: the left one at the first column, with its
/// border behind it; the right one in the last columns, with its border before.
pub proof fn lemma_sidebars_stand_where_they_belong(c: Canvas, border: String, base: String, row: int)
    requires
        c.cols > 0,
        c.rows > 0,
    ensures
        c.left() > 0 ==> {
            let panel = c.left_panel(border, base);
            &&& panel.x == 0 && panel.inner + 1 == c.left()
            &&& panel.area == c.chrome().area
            &&& panel.row_start(row) == goto(row, 0)
            &&& panel.blank(row) == goto(row, 0) + base@ + crate::chrome_text::spaces(
                panel.inner as int,
            ) + border@ + "\u{2502}"@
        },
        c.right() > 0 ==> {
            let panel = c.right_panel(border, base);
            &&& panel.x + c.right() == c.cols && panel.inner + 1 == c.right()
            &&& panel.area == c.chrome().area
            &&& panel.row_start(row) == goto(row, c.cols - c.right()) + border@ + "\u{2502}"@
        },
{
    crate::canvas::lemma_canvas_divided(c);
}

/// A row below the end of a sidebar is not drawn.
pub proof fn lemma_no_row_below_the_sidebar(panel: Panel, row: u16, text: Seq<char>, style: Seq<char>)
    ensures
        row >= panel.area.y + panel.area.h ==> panel.mark(MarkText::Row { row, text, style }).len()
            == 0,
        row < panel.area.y + panel.area.h ==> panel.row_start(row as int).is_prefix_of(
            panel.mark(MarkText::Row { row, text, style }),
        ),
{
    let shown = panel.row_start(row as int) + style + crate::paint::fit(text, panel.inner as int);
    assert(panel.row_start(row as int).is_prefix_of(shown));
}

/// A toast has its title in its first row and its words in the second.
pub proof fn lemma_toast_has_its_rows(
    rect: Rect,
    title: Seq<char>,
    body: Seq<char>,
    accent: Seq<char>,
    style: Seq<char>,
)
    ensures
        ({
            let first = placed(rect.y as int, rect.x as int, accent, " ! "@ + title, rect.w as int);
            let second = placed(rect.y + 1, rect.x as int, style, "   "@ + body, rect.w as int);
            &&& (first + second).is_prefix_of(toast_text(rect, title, body, accent, style))
            &&& goto(rect.y as int, rect.x as int).is_prefix_of(first)
            &&& goto(rect.y + 1, rect.x as int).is_prefix_of(second)
        }),
{
    let first = placed(rect.y as int, rect.x as int, accent, " ! "@ + title, rect.w as int);
    let second = placed(rect.y + 1, rect.x as int, style, "   "@ + body, rect.w as int);
    assert((first + second).is_prefix_of(toast_text(rect, title, body, accent, style)));
    assert(goto(rect.y as int, rect.x as int).is_prefix_of(first));
    assert(goto(rect.y + 1, rect.x as int).is_prefix_of(second));
}

/// A list that does not fit says which of its cards are shown, counted from one;
/// one that fits says how many there are.
pub proof fn lemma_list_says_what_is_shown(slots: Seq<CardSlot>, total: nat) -> (parts: (
    Seq<char>,
    Seq<char>,
    Seq<char>,
))
    requires
        slots.len() > 0,
    ensures
        number_of(parts.0) == slots[0].item + 1,
        number_of(parts.1) == slots.last().item + 1,
        number_of(parts.2) == total,
        shown_range(slots, total as int) == " "@ + parts.0 + "-"@ + parts.1 + "/"@ + parts.2,
        total > slots.len() ==> count_text(slots, total as int) == shown_range(slots, total as int),
        total <= slots.len() ==> count_text(slots, total as int) == " "@ + parts.2,
{
    lemma_decimal_is_the_number((slots[0].item + 1) as nat);
    lemma_decimal_is_the_number((slots.last().item + 1) as nat);
    lemma_decimal_is_the_number(total);
    (
        decimal((slots[0].item + 1) as nat),
        decimal((slots.last().item + 1) as nat),
        decimal(total),
    )
}

/// The card of a Project bears its name, a pointer where it is the active one,
/// and how many of its agents wait where any does.
pub proof fn lemma_card_of_a_project(card: ProjectCard) -> (waiting: Seq<char>)
    ensures
        number_of(waiting) == card.attention,
        card.active && card.attention == 0 ==> project_title(card) == " \u{25b8} "@ + card.name@,
        !card.active && card.attention == 0 ==> project_title(card) == "   "@ + card.name@,
        card.active && card.attention > 0 ==> project_title(card) == " \u{25b8} "@ + card.name@
            + " !"@ + waiting,
        !card.active && card.attention > 0 ==> project_title(card) == "   "@ + card.name@ + " !"@
            + waiting,
{
    reveal_strlit(" ");
    reveal_strlit("\u{25b8}");
    reveal_strlit(" \u{25b8} ");
    reveal_strlit("   ");
    reveal_strlit(" !");
    lemma_decimal_is_the_number(card.attention as nat);
    let waiting = decimal(card.attention as nat);
    if card.attention == 0 {
        if card.active {
            assert(project_title(card) =~= " \u{25b8} "@ + card.name@);
        } else {
            assert(project_title(card) =~= "   "@ + card.name@);
        }
    } else {
        if card.active {
            assert(project_title(card) =~= " \u{25b8} "@ + card.name@ + " !"@ + waiting);
        } else {
            assert(project_title(card) =~= "   "@ + card.name@ + " !"@ + waiting);
        }
    }
    waiting
}

/// The room between two cards takes the color of the active one on its side.
pub proof fn lemma_room_between_cards(
    styles: ProjectStyles,
    inner: nat,
    at: u16,
    upper: bool,
    lower: bool,
)
    ensures
        ({
            let mark = padding(styles, inner as int, at as int, upper, lower);
            &&& mark is Row
            &&& mark->Row_row == at
            &&& !upper && !lower ==> mark->Row_style == styles.base@ && mark->Row_text.len() == 0
            &&& upper && lower ==> mark->Row_style == styles.active@ && mark->Row_text.len() == 0
            &&& upper != lower ==> mark->Row_style == styles.half@ && mark->Row_text.len() == inner
            &&& upper && !lower ==> forall|k: int|
                0 <= k < inner ==> #[trigger] mark->Row_text[k] == '\u{2584}'
            &&& !upper && lower ==> forall|k: int|
                0 <= k < inner ==> #[trigger] mark->Row_text[k] == '\u{2580}'
        }),
{
}

/// The card in a slot has its title in the slot's first row, its detail in the
/// second and the room below; the active one alone is marked.
pub proof fn lemma_card_stands_in_its_slot(
    cards: Seq<ProjectCard>,
    slots: Seq<CardSlot>,
    styles: ProjectStyles,
    inner: int,
    n: nat,
)
    requires
        0 < n <= slots.len(),
        slots[n - 1].item < cards.len(),
        slots[n - 1].rect.y < u16::MAX - 2,
    ensures
        ({
            let all = project_card_marks(cards, slots, styles, inner, n);
            let before = project_card_marks(cards, slots, styles, inner, (n - 1) as nat).len() as int;
            let card = cards[slots[n - 1].item as int];
            let y = slots[n - 1].rect.y;
            &&& all.len() == before + 3
            &&& all[before] is Row && all[before]->Row_row == y
            &&& all[before]->Row_text == project_title(card)
            &&& all[before]->Row_style == if card.active {
                styles.active@
            } else {
                styles.base@
            }
            &&& all[before + 1] is Row && all[before + 1]->Row_row == y + 1
            &&& all[before + 1]->Row_text == "   "@ + card.detail@
            &&& all[before + 2] is Row && all[before + 2]->Row_row == y + 2
        }),
{
}

/// A status has a sign of its own kind: those that wait for a person, those that
/// are busy, and each of the others.
pub proof fn lemma_status_has_its_sign(status: AgentStatus)
    ensures
        status is Permission || status is Question ==> status_glyph(status) == "!"@,
        status is Working || status is Tool || status is Starting ==> status_glyph(status)
            == "\u{25cf}"@,
        status is Idle ==> status_glyph(status) == "\u{2713}"@,
        status is Error ==> status_glyph(status) == "\u{d7}"@,
        status is Exited ==> status_glyph(status) == "\u{25cb}"@,
        status is Unknown ==> status_glyph(status) == "?"@,
{
}

/// The card of an agent names it behind its sign; its Project is named only
/// where the list is of the whole Workspace.
pub proof fn lemma_card_of_an_agent(card: AgentCard, scope: SidebarScope)
    ensures
        (status_glyph(card.status) + " "@ + card.name@).is_suffix_of(agent_title(card)),
        scope is Project ==> agent_detail(card, scope) == agent_detail(
            AgentCard { project: None, ..card },
            SidebarScope::Workspace,
        ),
        card.branch is None && card.project is None && card.run is None && card.note is None
            ==> agent_detail(card, scope) == "    "@ + card.label@,
        dotted("x"@, None).len() == 0,
        card.note is Some ==> dotted(Seq::empty(), card.note) == " \u{b7} "@ + card.note->0@,
        card.note is Some ==> card.note->0@.is_suffix_of(agent_detail(card, scope)),
{
    let tail = status_glyph(card.status) + " "@ + card.name@;
    let head = " "@ + (if card.active {
        "\u{25b8}"@
    } else {
        " "@
    }) + " "@;
    assert(agent_title(card) =~= head + tail);
    assert(agent_title(card).skip(head.len() as int) =~= tail);
    if card.note is Some {
        let note = card.note->0@;
        let whole = agent_detail(card, scope);
        assert(whole.skip(whole.len() - note.len()) =~= note);
    }
    if card.branch is None && card.project is None && card.run is None && card.note is None {
        assert(agent_detail(card, scope) =~= "    "@ + card.label@);
    }
}

/// The card of an agent stands in its slot, in the agent's own color.
pub proof fn lemma_agent_stands_in_its_slot(
    cards: Seq<AgentCard>,
    slots: Seq<CardSlot>,
    styles: ListStyles,
    scope: SidebarScope,
    n: nat,
)
    requires
        0 < n <= slots.len(),
        slots[n - 1].item < cards.len(),
        slots[n - 1].rect.y < u16::MAX - 1,
    ensures
        ({
            let all = agent_card_marks(cards, slots, styles, scope, n);
            let before = agent_card_marks(cards, slots, styles, scope, (n - 1) as nat).len() as int;
            let card = cards[slots[n - 1].item as int];
            &&& all.len() == before + 2
            &&& all[before] is Row
            &&& all[before]->Row_row == slots[n - 1].rect.y
            &&& all[before]->Row_text == agent_title(card)
            &&& all[before]->Row_style == card.style@
            &&& all[before + 1] is Row
            &&& all[before + 1]->Row_row == slots[n - 1].rect.y + 1
            &&& all[before + 1]->Row_style == styles.muted@
        }),
{
}

/// A file is drawn behind its indent, two cells to a step and eight steps at
/// most, with a sign for folders and links; a folder ends in a slash.
pub proof fn lemma_file_is_drawn(f: FileRow)
    ensures
        f.is_dir ==> (f.name@ + "/"@).is_suffix_of(file_text(f)),
        !f.is_dir ==> f.name@.is_suffix_of(file_text(f)),
        f.depth <= 8 && !f.is_dir ==> file_text(f).len() == 1 + 2 * f.depth + 1 + 1 + f.name@.len(),
        f.depth > 8 && !f.is_dir ==> file_text(f).len() == 1 + 16 + 1 + 1 + f.name@.len(),
        f.depth <= 8 ==> file_text(f)[1 + 2 * f.depth] == if f.is_dir && f.expanded {
            '\u{25be}'
        } else if f.is_dir {
            '\u{25b8}'
        } else if f.is_symlink {
            '@'
        } else {
            ' '
        },
{
    reveal_strlit(" ");
    reveal_strlit("/");
    reveal_strlit("@");
    reveal_strlit("\u{25be}");
    reveal_strlit("\u{25b8}");
    let whole = file_text(f);
    if f.is_dir {
        let tail = f.name@ + "/"@;
        assert(whole.skip(whole.len() - tail.len()) =~= tail);
    } else {
        assert(whole.skip(whole.len() - f.name@.len()) =~= f.name@);
    }
}

/// Of the files in view the selected one alone is marked, each in its row.
pub proof fn lemma_selected_file_is_marked(
    files: Seq<FileRow>,
    first: int,
    selected: int,
    start: int,
    styles: ListStyles,
    n: nat,
    k: int,
)
    requires
        0 <= k < n,
        0 <= start,
        start + n <= u16::MAX,
    ensures
        file_row_marks(files, first, selected, start, styles, n).len() == n,
        ({
            let mark = file_row_marks(files, first, selected, start, styles, n)[k];
            &&& mark is Row
            &&& mark->Row_row == start + k
            &&& mark->Row_text == file_text(files[first + k])
            &&& first + k == selected ==> mark->Row_style == styles.selection@
            &&& first + k != selected ==> mark->Row_style == styles.base@
        }),
    decreases n,
{
    if k < n - 1 {
        lemma_selected_file_is_marked(files, first, selected, start, styles, (n - 1) as nat, k);
    } else if n > 1 {
        lemma_selected_file_is_marked(files, first, selected, start, styles, (n - 1) as nat, 0);
    } else {
        assert(file_row_marks(files, first, selected, start, styles, 0).len() == 0);
    }
}

/// Changes are told apart: what came, what went, and what nobody tracks, in this
/// order; a count of nothing is not drawn.
pub proof fn lemma_changes_are_told_apart(
    stats: GitStats,
    styles: ListStyles,
    counts: Seq<(u32, Seq<char>, Seq<char>)>,
    used: int,
    inner: int,
)
    ensures
        change_counts(stats, styles).len() == 3,
        change_counts(stats, styles)[0] == (stats.insertions, "+"@, styles.added@),
        change_counts(stats, styles)[1] == (stats.deletions, "-"@, styles.removed@),
        change_counts(stats, styles)[2] == (stats.untracked, "?"@, styles.untracked@),
        counts.len() > 0 && counts[0].0 == 0 ==> change_marks(counts, used, inner) == change_marks(
            counts.drop_first(),
            used,
            inner,
        ),
        counts.len() > 0 && counts[0].0 > 0 && change_marks(counts, used, inner).len() > 0 ==> {
            let mark = change_marks(counts, used, inner)[0];
            &&& mark is More
            &&& mark->More_style == counts[0].2
            &&& (" "@ + counts[0].1).is_prefix_of(mark->More_text)
        },
{
    if counts.len() > 0 && counts[0].0 > 0 && change_marks(counts, used, inner).len() > 0 {
        let head = " "@ + counts[0].1;
        let text = crate::rail::change_text(counts[0].1, counts[0].0);
        assert(head.is_prefix_of(text));
    }
}

/// Agents are listed by their Project, within it by when they started, and then
/// by their Pane.
pub proof fn lemma_agents_are_ordered(a: AgentPlace, b: AgentPlace, c: AgentPlace)
    ensures
        a.project < b.project ==> place_before(a, b) && !place_before(b, a),
        a.project == b.project && a.started_at < b.started_at ==> place_before(a, b)
            && !place_before(b, a),
        place_before(a, b) || place_before(b, a),
        place_before(a, b) && place_before(b, c) ==> place_before(a, c),
        place_before(a, b) && place_before(b, a) ==> a == b,
{
}

/// The inside of a tile lies within its border.
pub proof fn lemma_inside_of_a_tile(tile: Rect)
    requires
        tile.w >= 4,
        tile.h >= 3,
        tile.x + tile.w <= u16::MAX,
        tile.y + tile.h <= u16::MAX,
    ensures
        tile_inside(tile).x == tile.x + 1,
        tile_inside(tile).y == tile.y + 1,
        tile_inside(tile).x + tile_inside(tile).w + 1 == tile.x + tile.w,
        tile_inside(tile).y + tile_inside(tile).h + 1 == tile.y + tile.h,
{
}

/// A tile is labelled by its place, counted from one, and by the name of its Tab
/// where it has one.
pub proof fn lemma_tile_is_labelled(idx: nat, name: Option<String>) -> (place: Seq<char>)
    ensures
        number_of(place) == idx + 1,
        name is None ==> tile_label(idx as int, name) == " "@ + place + " "@,
        name is Some ==> tile_label(idx as int, name) == " "@ + place + ":"@ + name->0@ + " "@,
{
    lemma_decimal_is_the_number((idx + 1) as nat);
    decimal((idx + 1) as nat)
}

/// A screen is drawn small by taking cells evenly: the first stands for the
/// first, none lies outside, and they stay in their order. At full size each
/// stands for itself.
pub proof fn lemma_cells_are_taken_evenly(m: int, k: int, cells: int, len: int)
    requires
        0 <= m <= k < len,
        0 < cells,
    ensures
        sample(0, cells, len) == 0,
        0 <= sample(m, cells, len) < cells,
        sample(m, cells, len) <= sample(k, cells, len),
        cells == len ==> sample(m, cells, len) == m,
{
    assert(0 * cells / len == 0) by (nonlinear_arith)
        requires
            0 < len,
    ;
    assert(m * cells <= k * cells) by (nonlinear_arith)
        requires
            m <= k,
            0 < cells,
    ;
    assert(0 <= m * cells) by (nonlinear_arith)
        requires
            0 <= m,
            0 < cells,
    ;
    vstd::arithmetic::div_mod::lemma_div_is_ordered(m * cells, k * cells, len);
    vstd::arithmetic::div_mod::lemma_div_is_ordered(0, m * cells, len);
    if cells == len {
        vstd::arithmetic::div_mod::lemma_div_multiples_vanish(m, len);
        assert(m * cells == len * m) by (nonlinear_arith)
            requires
                cells == len,
        ;
    }
}

/// A character that cannot be drawn in one cell is stood in for.
pub proof fn lemma_small_character(cell: MiniCell)
    ensures
        cell.continuation ==> mini_glyph(cell) == " "@,
        !cell.continuation && cell.wide ==> mini_glyph(cell) == "#"@,
        !cell.continuation && !cell.wide && (exists|i: int|
            0 <= i < cell.text@.len() && (#[trigger] cell.text@[i] as int) < 0x20) ==> mini_glyph(
            cell,
        ) == " "@,
        !cell.continuation && !cell.wide && (forall|i: int|
            0 <= i < cell.text@.len() ==> (#[trigger] cell.text@[i] as int) >= 0x20) ==> mini_glyph(
            cell,
        ) == cell.text@,
{
    if !cell.continuation && !cell.wide && (exists|i: int|
        0 <= i < cell.text@.len() && (#[trigger] cell.text@[i] as int) < 0x20) {
        assert(crate::tiles::has_control(cell.text@));
    }
}

/// The tile that is marked is bright and bold, the others are dim.
pub proof fn lemma_marked_tile_is_bright(color: Seq<char>)
    ensures
        shade(true) == "\u{1b}[0m"@,
        shade(false) == "\u{1b}[0;2m"@,
        tile_color(false, color) == "\u{1b}[0;"@ + color + "m"@,
        tile_color(true, color) == "\u{1b}[0;"@ + color + "m"@ + "\u{1b}[1m"@,
{
    assert(tile_color(false, color) =~= "\u{1b}[0;"@ + color + "m"@);
}

/// The screen of a Pane is found by the Pane.
pub proof fn lemma_screen_of_a_pane(grids: Seq<PaneGrid>, pane: PaneId)
    ensures
        grid_of(grids, pane) is None <==> forall|i: int|
            0 <= i < grids.len() ==> (#[trigger] grids[i]).pane != pane,
        grid_of(grids, pane) matches Some(i) ==> 0 <= i < grids.len() && grids[i].pane == pane,
    decreases grids.len(),
{
    if grids.len() > 0 {
        let head = grids.drop_last();
        lemma_screen_of_a_pane(head, pane);
        if grid_of(grids, pane) is None {
            assert forall|i: int| 0 <= i < grids.len() implies (#[trigger] grids[i]).pane
                != pane by {
                if i < head.len() {
                    assert(head[i].pane != pane);
                }
            }
        }
        if forall|i: int| 0 <= i < grids.len() ==> (#[trigger] grids[i]).pane != pane {
            assert forall|i: int| 0 <= i < head.len() implies (#[trigger] head[i]).pane
                != pane by {
                assert(head[i] == grids[i]);
            }
            assert(grids[grids.len() - 1].pane != pane);
        }
    }
}

/// The tile that is marked is among those that are there.
pub proof fn lemma_marked_tile_is_among_them(sel: int, n: int)
    requires
        0 <= sel,
        0 <= n,
    ensures
        sel < n ==> selected_among(sel, n) == sel,
        0 < n <= sel ==> selected_among(sel, n) == n - 1,
        n == 0 ==> selected_among(sel, n) == 0,
{
}

/// Below the files stands what is asked, with what was typed, and else how
/// things are; above them the name of their Project.
pub proof fn lemma_lines_around_the_files(view: FileView)
    ensures
        view.prompt is None ==> files_status(view) == " "@ + view.status@,
        view.prompt is Some ==> files_status(view) == " "@ + view.prompt->0.label@ + ": "@
            + view.prompt->0.value@ + "\u{2588}"@,
        view.project is Some ==> files_title(view.project) == " FILES \u{b7} "@ + view.project->0@,
{
}

/// No more files are in view than there are rows, and none is left out that
/// would have one.
pub proof fn lemma_files_fill_their_rows(view: FileView, area: Rect)
    requires
        area.y + area.h <= 60_000,
    ensures
        ({
            let rows = crate::canvas::file_rows(area, view.changes is Some);
            let n = files_in_view(view, area);
            &&& n <= rows.tree_end - rows.tree_start
            &&& view.first + n <= view.files@.len() || n == 0
            &&& n == rows.tree_end - rows.tree_start || view.first + n >= view.files@.len()
        }),
{
}

/// The color of an agent is set bold where it has the focus; its run is named by
/// its number and the role that it plays there.
pub proof fn lemma_looks_of_an_agent(color: Seq<char>, run: RunRole) -> (number: Seq<char>)
    ensures
        agent_style(color, true) == "\u{1b}[0;1;"@ + color + ";49m"@,
        agent_style(color, false) == "\u{1b}[0;"@ + color + ";49m"@,
        number_of(number) == run.run,
        run_text(Some(run)) == Some("Run "@ + number + " / "@ + run.role@),
        run_text(None) is None,
{
    lemma_decimal_is_the_number(run.run as nat);
    decimal(run.run as nat)
}

/// Of the notes that a card looks for the first that is there is shown.
pub proof fn lemma_first_note_is_shown(
    notes: Map<(u64, Seq<char>), Note>,
    owner: u64,
    keys: Seq<Seq<char>>,
    i: int,
)
    requires
        0 <= i < keys.len(),
        notes.dom().contains((owner, keys[i])),
        forall|k: int| 0 <= k < i ==> !notes.dom().contains((owner, #[trigger] keys[k])),
    ensures
        first_note(notes, owner, keys) == Some(notes[(owner, keys[i])].value),
    decreases keys.len(),
{
    if i > 0 {
        let rest = keys.skip(1);
        assert(!notes.dom().contains((owner, keys[0])));
        assert(rest[i - 1] == keys[i]);
        assert forall|k: int| 0 <= k < i - 1 implies !notes.dom().contains(
            (owner, #[trigger] rest[k]),
        ) by {
            assert(rest[k] == keys[k + 1]);
        }
        lemma_first_note_is_shown(notes, owner, rest, i - 1);
    }
}

/// The notes that cards look for, in their order.
pub proof fn lemma_notes_that_cards_look_for()
    ensures
        agent_keys() == seq!["task"@, "model"@, "branch"@, "title"@, "cwd"@],
        project_keys() == seq!["branch"@, "environment"@, "task"@],
{
}

/// Below the name of a Project stands its worktree where it is one, else its
/// note where it has one, else its folder.
pub proof fn lemma_line_below_a_project(
    tree: ProjectWorktree,
    note: Seq<char>,
    root: Seq<char>,
    home: Option<Seq<char>>,
)
    ensures
        project_line(Some(tree), Some(note), root, home) == tree.branch@ + " \u{b7} "@ + compacted(
            tree.repository@,
            home,
        ),
        project_line(Some(tree), None, root, home) == project_line(
            Some(tree),
            Some(note),
            root,
            home,
        ),
        project_line(None, Some(note), root, home) == note,
        project_line(None, None, root, home) == compacted(root, home),
{
}

/// A frame starts from a clear screen and ends with the cursor, shown or hidden
/// as it should be; a toast is drawn only where there is one and it has room.
pub proof fn lemma_frame_starts_clear(scene: Scene, canvas: Canvas, chrome: Chrome)
    ensures
        "\u{1b}[r\u{1b}[2J"@.is_prefix_of(scene.frame(canvas, chrome)),
        scene.cursor_text().is_suffix_of(scene.frame(canvas, chrome)),
        scene.cursor_visible ==> "\u{1b}[?25h"@.is_suffix_of(scene.cursor_text()),
        !scene.cursor_visible ==> "\u{1b}[?25l"@.is_suffix_of(scene.cursor_text()),
        scene.cursor matches Some((col, row)) ==> goto(row as int, col as int).is_prefix_of(
            scene.cursor_text(),
        ),
        scene.toast is None || canvas.toast() is None ==> scene.notice_text(canvas).len() == 0,
        scene.layout.dividers@.len() == 0 ==> scene.lines_text().len() == 0,
        canvas.left() == 0 ==> chrome.left_text(canvas).len() == 0,
        canvas.right() == 0 ==> chrome.right_text(canvas).len() == 0,
        canvas.chrome().status_row is None ==> chrome.bottom_text(canvas).len() == 0,
{
    let whole = scene.frame(canvas, chrome);
    let end = scene.cursor_text();
    assert("\u{1b}[r\u{1b}[2J"@.is_prefix_of(whole));
    assert(whole.skip(whole.len() - end.len()) =~= end);
    let show = "\u{1b}[?25h"@;
    let hide = "\u{1b}[?25l"@;
    if scene.cursor_visible {
        assert(end.skip(end.len() - show.len()) =~= show);
    } else {
        assert(end.skip(end.len() - hide.len()) =~= hide);
    }
    if scene.cursor is Some {
        let (col, row) = scene.cursor->0;
        assert(goto(row as int, col as int).is_prefix_of(end));
    }
}

} // verus!
