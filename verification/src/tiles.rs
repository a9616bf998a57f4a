//! The tiles of the overview: a border with a label around the screens of a
//! Tab's Panes, scaled down.
use crate::canvas::lay_out_tab;
use crate::hierarchy::Win;
use crate::layout::{lemma_dividers_within, lemma_rects_disjoint, Layout, PaneRect};
use crate::paint::{dividers_text, draw_dividers, goto, push_goto, push_repeated, repeated};
use crate::text::{chars_of, clip, clipped, push_decimal, push_text};
use crate::types::{PaneId, Rect};
use vstd::prelude::*;

verus! {

/// The label of a tile: its number, counted from one, and its name.
pub open spec fn tile_label(idx: int, name: Option<String>) -> Seq<char> {
    match name {
        Some(text) => " "@ + crate::text::decimal((idx + 1) as nat) + ":"@ + text@ + " "@,
        None => " "@ + crate::text::decimal((idx + 1) as nat) + " "@,
    }
}

fn write_label(idx: usize, name: &Option<String>) -> (label: String)
    requires
        idx < usize::MAX,
    ensures
        label@ == tile_label(idx as int, *name),
{
    let mut label = " ".to_owned();
    push_decimal(&mut label, idx as u64 + 1);
    match name {
        Some(text) => {
            push_text(&mut label, ":");
            push_text(&mut label, text.as_str());
        },
        None => {},
    }
    push_text(&mut label, " ");
    label
}

/// The top edge of a tile, with as much of the label as leaves one cell free.
pub open spec fn tile_top(label: Seq<char>, inner: int) -> Seq<char> {
    let shown = clipped(label, crate::canvas::less(inner, 1) as nat);
    "\u{250C}"@ + shown + repeated('\u{2500}', inner - shown.len()) + "\u{2510}"@
}

/// The sides of a tile above row `to`.
pub open spec fn tile_sides(tile: Rect, to: int) -> Seq<char>
    decreases to - tile.y - 1,
{
    if to <= tile.y + 1 {
        Seq::empty()
    } else {
        tile_sides(tile, to - 1) + goto(to - 1, tile.x as int) + "\u{2502}"@ + goto(
            to - 1,
            tile.right() - 1,
        ) + "\u{2502}"@
    }
}

/// The border of a tile.
pub open spec fn tile_border(tile: Rect, label: Seq<char>) -> Seq<char> {
    let inner = tile.w - 2;
    goto(tile.y as int, tile.x as int) + tile_top(label, inner) + tile_sides(
        tile,
        tile.bottom() - 1,
    ) + goto(tile.bottom() - 1, tile.x as int) + "\u{2514}"@ + repeated('\u{2500}', inner)
        + "\u{2518}"@
}

fn push_top(out: &mut String, label: &str, inner: usize)
    ensures
        final(out)@ == old(out)@ + tile_top(label@, inner as int),
{
    let ghost head = out@;
    let shown = clip(label, inner.saturating_sub(1));
    let len: usize = chars_of(shown.as_str()).len();
    push_text(out, "\u{250C}");
    push_text(out, shown.as_str());
    push_repeated(out, '\u{2500}', inner.saturating_sub(len));
    push_text(out, "\u{2510}");
    assert(repeated('\u{2500}', inner - shown@.len()) =~= repeated(
        '\u{2500}',
        crate::canvas::less(inner as int, shown@.len() as int),
    ));
    assert(out@ =~= head + tile_top(label@, inner as int));
}

fn push_sides(out: &mut String, tile: Rect)
    requires
        tile.fits(),
        tile.w >= 4,
        tile.h >= 3,
    ensures
        final(out)@ == old(out)@ + tile_sides(tile, tile.bottom() - 1),
{
    let ghost head = out@;
    let mut row: u16 = tile.y + 1;
    let bottom: u16 = tile.y + (tile.h - 1);
    assert(out@ =~= head + tile_sides(tile, row as int));
    while row < bottom
        invariant
            tile.fits(),
            tile.w >= 4,
            tile.y + 1 <= row <= bottom,
            bottom == tile.bottom() - 1,
            out@ == head + tile_sides(tile, row as int),
        decreases bottom - row,
    {
        push_goto(out, row, tile.x);
        push_text(out, "\u{2502}");
        push_goto(out, row, tile.x + (tile.w - 1));
        push_text(out, "\u{2502}");
        row += 1;
        assert(out@ =~= head + tile_sides(tile, row as int));
    }
}

/// Draw the border of a tile, with its label in the top edge.
pub fn draw_tile_border(out: &mut String, tile: Rect, idx: usize, name: &Option<String>)
    requires
        tile.fits(),
        tile.w >= 4,
        tile.h >= 3,
        idx < usize::MAX,
    ensures
        final(out)@ == old(out)@ + tile_border(tile, tile_label(idx as int, *name)),
{
    let ghost head = out@;
    let label = write_label(idx, name);
    let inner: usize = (tile.w - 2) as usize;
    push_goto(out, tile.y, tile.x);
    push_top(out, label.as_str(), inner);
    push_sides(out, tile);
    push_goto(out, tile.y + (tile.h - 1), tile.x);
    push_text(out, "\u{2514}");
    push_repeated(out, '\u{2500}', inner);
    push_text(out, "\u{2518}");
    assert(out@ =~= head + tile_border(tile, label@));
}

/// The cell of a grid of `cells` cells that the `m`th of `len` samples shows.
pub open spec fn sample(m: int, cells: int, len: int) -> int {
    let at = m * cells / len;
    if at < cells - 1 {
        at
    } else {
        cells - 1
    }
}

/// The cell of a grid that a sample shows.
pub fn sample_index(m: u16, cells: u16, len: u16) -> (at: u16)
    requires
        m < len,
        cells > 0,
    ensures
        at == sample(m as int, cells as int, len as int),
        at < cells,
{
    proof {
        assert(m * cells <= 65535 * 65535) by (nonlinear_arith)
            requires
                m <= 65535,
                cells <= 65535,
        ;
    }
    let wide: u32 = (m as u32) * (cells as u32) / (len as u32);
    if wide < (cells - 1) as u32 {
        wide as u16
    } else {
        cells - 1
    }
}

/// One cell of a Pane as a miniature shows it.
#[derive(Debug)]
pub struct MiniCell {
    /// Identifies the colors: equal for equal colors.
    pub colors: u64,
    /// The escape sequence that sets the colors.
    pub sgr: String,
    /// The right half of a wide character.
    pub continuation: bool,
    pub wide: bool,
    pub text: String,
}

/// A text has a control character.
pub open spec fn has_control(text: Seq<char>) -> bool {
    exists|i: int| 0 <= i < text.len() && (#[trigger] text[i] as int) < 0x20
}

fn below_space(c: char) -> (below: bool)
    ensures
        below == ((c as int) < 0x20),
{
    (c as u32) < 0x20
}

fn holds_control(text: &str) -> (held: bool)
    ensures
        held == has_control(text@),
{
    let chars = chars_of(text);
    let mut i: usize = 0;
    while i < chars.len()
        invariant
            i <= chars@.len(),
            chars@ == text@,
            forall|k: int| 0 <= k < i ==> (#[trigger] text@[k] as int) >= 0x20,
        decreases chars@.len() - i,
    {
        if below_space(chars[i]) {
            assert((text@[i as int] as int) < 0x20);
            return true;
        }
        i += 1;
    }
    false
}

/// What one cell shows in a miniature: exactly one column.
pub open spec fn mini_glyph(cell: MiniCell) -> Seq<char> {
    if cell.continuation {
        " "@
    } else if cell.wide {
        "#"@
    } else if has_control(cell.text@) {
        " "@
    } else {
        cell.text@
    }
}

/// The first `n` cells of a row of samples. The colors are set where they
/// change.
pub open spec fn mini_row(cells: Seq<MiniCell>, n: nat) -> Seq<char>
    decreases n,
{
    if n == 0 {
        Seq::empty()
    } else {
        let cell = cells[n - 1];
        let colored = if n > 1 && cells[n - 2].colors == cell.colors {
            Seq::empty()
        } else {
            cell.sgr@
        };
        mini_row(cells, (n - 1) as nat) + colored + mini_glyph(cell)
    }
}

/// The screen of a Pane, row by row.
#[derive(Debug)]
pub struct PaneGrid {
    pub pane: PaneId,
    pub width: u16,
    pub height: u16,
    pub cells: Vec<MiniCell>,
}

impl PaneGrid {
    pub open spec fn wf(self) -> bool {
        &&& self.width > 0
        &&& self.height > 0
        &&& self.cells@.len() == self.height * self.width
    }

    pub open spec fn cell(self, x: int, y: int) -> MiniCell {
        self.cells@[y * self.width + x]
    }

    fn cell_at(&self, x: u16, y: u16) -> (cell: &MiniCell)
        requires
            self.wf(),
            x < self.width,
            y < self.height,
        ensures
            *cell == self.cell(x as int, y as int),
    {
        proof {
            let (wide, tall, row) = (self.width as int, self.height as int, y as int);
            assert(row * wide + wide <= tall * wide) by (nonlinear_arith)
                requires
                    0 <= row < tall,
                    0 < wide,
            ;
            assert(0 <= row * wide <= 65535 * 65535) by (nonlinear_arith)
                requires
                    0 <= row <= 65535,
                    0 < wide <= 65535,
            ;
        }
        &self.cells[y as usize * self.width as usize + x as usize]
    }
}

/// Row `y` of a screen, sampled down to `len` cells.
pub open spec fn sampled_row(grid: PaneGrid, y: int, len: int) -> Seq<MiniCell> {
    Seq::new(len as nat, |m: int| grid.cell(sample(m, grid.width as int, len), y))
}

fn push_sampled_row(out: &mut String, grid: &PaneGrid, y: u16, len: u16)
    requires
        grid.wf(),
        y < grid.height,
    ensures
        final(out)@ == old(out)@ + mini_row(
            sampled_row(*grid, y as int, len as int),
            len as nat,
        ),
{
    let ghost head = out@;
    let ghost cells = sampled_row(*grid, y as int, len as int);
    let mut m: u16 = 0;
    let mut last: Option<u64> = None;
    assert(out@ =~= head + mini_row(cells, 0));
    while m < len
        invariant
            grid.wf(),
            y < grid.height,
            m <= len,
            cells == sampled_row(*grid, y as int, len as int),
            out@ == head + mini_row(cells, m as nat),
            last == if m == 0 {
                None
            } else {
                Some(cells[m - 1].colors)
            },
        decreases len - m,
    {
        let cell = grid.cell_at(sample_index(m, grid.width, len), y);
        assert(*cell == cells[m as int]);
        if last != Some(cell.colors) {
            push_text(out, cell.sgr.as_str());
        }
        last = Some(cell.colors);
        if cell.continuation {
            push_text(out, " ");
        } else if cell.wide {
            push_text(out, "#");
        } else if holds_control(cell.text.as_str()) {
            push_text(out, " ");
        } else {
            push_text(out, cell.text.as_str());
        }
        m += 1;
        assert(out@ =~= head + mini_row(cells, m as nat));
    }
}

/// The first `n` rows of a Pane's miniature in `rect`, faint unless its tile is
/// selected.
pub open spec fn mini_pane(grid: PaneGrid, rect: Rect, selected: bool, n: nat) -> Seq<char>
    decreases n,
{
    if n == 0 {
        Seq::empty()
    } else {
        let at = n - 1;
        let y = sample(at, grid.height as int, rect.h as int);
        mini_pane(grid, rect, selected, at as nat) + goto(rect.y + at, rect.x as int)
            + shade(selected) + mini_row(
            sampled_row(grid, y, rect.w as int),
            rect.w as nat,
        )
    }
}

/// How a row of a miniature begins.
pub open spec fn shade(selected: bool) -> Seq<char> {
    if selected {
        "\u{1b}[0m"@
    } else {
        "\u{1b}[0;2m"@
    }
}

fn push_mini_pane(out: &mut String, grid: &PaneGrid, rect: Rect, selected: bool)
    requires
        grid.wf(),
        rect.fits(),
    ensures
        final(out)@ == old(out)@ + mini_pane(*grid, rect, selected, rect.h as nat),
{
    let ghost head = out@;
    let mut m: u16 = 0;
    assert(out@ =~= head + mini_pane(*grid, rect, selected, 0));
    while m < rect.h
        invariant
            grid.wf(),
            rect.fits(),
            m <= rect.h,
            out@ == head + mini_pane(*grid, rect, selected, m as nat),
        decreases rect.h - m,
    {
        let y: u16 = sample_index(m, grid.height, rect.h);
        push_goto(out, rect.y + m, rect.x);
        if selected {
            push_text(out, "\u{1b}[0m");
        } else {
            push_text(out, "\u{1b}[0;2m");
        }
        push_sampled_row(out, grid, y, rect.w);
        m += 1;
        assert(out@ =~= head + mini_pane(*grid, rect, selected, m as nat));
    }
}

/// The screen of a Pane among `grids`.
pub open spec fn grid_of(grids: Seq<PaneGrid>, pane: PaneId) -> Option<int>
    decreases grids.len(),
{
    if grids.len() == 0 {
        None
    } else {
        match grid_of(grids.drop_last(), pane) {
            Some(i) => Some(i),
            None => if grids.last().pane == pane {
                Some(grids.len() - 1)
            } else {
                None
            },
        }
    }
}

fn find_grid(grids: &Vec<PaneGrid>, pane: PaneId) -> (at: Option<usize>)
    ensures
        match at {
            Some(i) => i < grids@.len() && grid_of(grids@, pane) == Some(i as int),
            None => grid_of(grids@, pane) is None,
        },
{
    let mut i: usize = 0;
    let mut found: Option<usize> = None;
    assert(grids@.take(0) =~= Seq::<PaneGrid>::empty());
    while i < grids.len()
        invariant
            i <= grids@.len(),
            match found {
                Some(k) => k < i && grid_of(grids@.take(i as int), pane) == Some(k as int),
                None => grid_of(grids@.take(i as int), pane) is None,
            },
        decreases grids@.len() - i,
    {
        assert(grids@.take(i as int + 1).drop_last() =~= grids@.take(i as int));
        if found.is_none() && grids[i].pane.0 == pane.0 {
            found = Some(i);
        }
        i += 1;
    }
    assert(grids@.take(i as int) =~= grids@);
    found
}

/// The miniatures of the first `n` Panes of a tile. A Pane without a screen, or
/// without room, shows nothing.
pub open spec fn mini_panes(
    panes: Seq<PaneRect>,
    grids: Seq<PaneGrid>,
    selected: bool,
    n: nat,
) -> Seq<char>
    decreases n,
{
    if n == 0 {
        Seq::empty()
    } else {
        let spot = panes[n - 1];
        mini_panes(panes, grids, selected, (n - 1) as nat) + match grid_of(grids, spot.pane) {
            Some(i) if spot.rect.w > 0 && spot.rect.h > 0 => mini_pane(
                grids[i],
                spot.rect,
                selected,
                spot.rect.h as nat,
            ),
            _ => Seq::empty(),
        }
    }
}

fn push_mini_panes(out: &mut String, panes: &Vec<PaneRect>, grids: &Vec<PaneGrid>, selected: bool)
    requires
        forall|i: int| 0 <= i < panes@.len() ==> (#[trigger] panes@[i]).rect.fits(),
        forall|i: int| 0 <= i < grids@.len() ==> (#[trigger] grids@[i]).wf(),
    ensures
        final(out)@ == old(out)@ + mini_panes(panes@, grids@, selected, panes@.len()),
{
    let ghost head = out@;
    let mut k: usize = 0;
    assert(out@ =~= head + mini_panes(panes@, grids@, selected, 0));
    while k < panes.len()
        invariant
            k <= panes@.len(),
            forall|i: int| 0 <= i < panes@.len() ==> (#[trigger] panes@[i]).rect.fits(),
            forall|i: int| 0 <= i < grids@.len() ==> (#[trigger] grids@[i]).wf(),
            out@ == head + mini_panes(panes@, grids@, selected, k as nat),
        decreases panes@.len() - k,
    {
        let spot = panes[k];
        let ghost before = out@;
        assert(before =~= before + Seq::<char>::empty());
        if let Some(at) = find_grid(grids, spot.pane) {
            if spot.rect.w > 0 && spot.rect.h > 0 {
                push_mini_pane(out, &grids[at], spot.rect, selected);
            }
        }
        k += 1;
        assert(out@ =~= head + mini_panes(panes@, grids@, selected, k as nat));
    }
}

/// Where a tile shows the Panes of its Tab: inside the border, divided as the
/// Tab is. `None` where the tile is too small for a border with content.
pub fn tile_layout(win: &Win, tile: Rect) -> (layout: Option<Layout>)
    requires
        tile.fits(),
    ensures
        match layout {
            None => tile.w < 4 || tile.h < 3,
            Some(mini) => {
                &&& tile.w >= 4 && tile.h >= 3
                &&& mini.panes@ == crate::canvas::tab_rects(*win, tile_inside(tile))
                &&& mini.dividers@ == crate::canvas::tab_dividers(*win, tile_inside(tile))
            },
        },
{
    if tile.w < 4 || tile.h < 3 {
        return None;
    }
    Some(lay_out_tab(win, Rect::new(tile.x + 1, tile.y + 1, tile.w - 2, tile.h - 2)))
}

/// The cells inside the border of a tile.
pub open spec fn tile_inside(tile: Rect) -> Rect {
    Rect {
        x: (tile.x + 1) as u16,
        y: (tile.y + 1) as u16,
        w: (tile.w - 2) as u16,
        h: (tile.h - 2) as u16,
    }
}

/// The lines between the Panes of a tile.
pub open spec fn tile_lines(win: Win, tile: Rect, color: Seq<char>) -> Seq<char> {
    let lines = crate::canvas::tab_dividers(win, tile_inside(tile));
    if lines.len() == 0 {
        Seq::empty()
    } else {
        "\u{1b}["@ + color + "m"@ + dividers_text(lines, lines.len()) + "\u{1b}[0m"@
    }
}

/// How the border of a tile begins.
pub open spec fn tile_color(selected: bool, color: Seq<char>) -> Seq<char> {
    "\u{1b}[0;"@ + color + "m"@ + if selected {
        "\u{1b}[1m"@
    } else {
        Seq::empty()
    }
}

/// The text of a tile of the overview.
pub open spec fn tile_text(
    win: Win,
    idx: int,
    tile: Rect,
    selected: bool,
    color: Seq<char>,
    divider: Seq<char>,
    grids: Seq<PaneGrid>,
) -> Seq<char> {
    let panes = crate::canvas::tab_rects(win, tile_inside(tile));
    tile_color(selected, color) + tile_border(tile, tile_label(idx, win.name)) + tile_lines(
        win,
        tile,
        divider,
    ) + mini_panes(panes, grids, selected, panes.len()) + "\u{1b}[0m"@
}

fn push_tile_color(out: &mut String, selected: bool, color: &str)
    ensures
        final(out)@ == old(out)@ + tile_color(selected, color@),
{
    let ghost head = out@;
    push_text(out, "\u{1b}[0;");
    push_text(out, color);
    push_text(out, "m");
    if selected {
        push_text(out, "\u{1b}[1m");
    }
    assert(out@ =~= head + tile_color(selected, color@));
}

proof fn lemma_appended(
    head: Seq<char>,
    a: Seq<char>,
    b: Seq<char>,
    c: Seq<char>,
    d: Seq<char>,
    e: Seq<char>,
)
    ensures
        head + a + b + c + d + e == head + (a + b + c + d + e),
{
    assert(head + a + b + c + d + e =~= head + (a + b + c + d + e));
}

proof fn lemma_tile_areas(win: Win, tile: Rect)
    requires
        tile.fits(),
        tile.w >= 4,
        tile.h >= 3,
    ensures
        forall|i: int|
            0 <= i < crate::canvas::tab_rects(win, tile_inside(tile)).len() ==> (
            #[trigger] crate::canvas::tab_rects(win, tile_inside(tile))[i]).rect.fits(),
        forall|i: int|
            0 <= i < crate::canvas::tab_dividers(win, tile_inside(tile)).len() ==> (
            #[trigger] crate::canvas::tab_dividers(win, tile_inside(tile))[i]).rect.fits(),
{
    lemma_dividers_within(win.layout, tile_inside(tile));
    lemma_rects_disjoint(win.layout, tile_inside(tile));
}

/// Draw a tile of the overview: its border with the label, the lines between
/// the Panes of its Tab at this size, and the screens of the Panes scaled down.
/// A tile that is too small stays empty.
pub fn draw_overview_tile(
    win: &Win,
    idx: usize,
    tile: Rect,
    selected: bool,
    color: &str,
    divider: &str,
    grids: &Vec<PaneGrid>,
    out: &mut String,
)
    requires
        tile.fits(),
        idx < usize::MAX,
        forall|i: int| 0 <= i < grids@.len() ==> (#[trigger] grids@[i]).wf(),
    ensures
        final(out)@ == old(out)@ + if tile.w < 4 || tile.h < 3 {
            Seq::empty()
        } else {
            tile_text(*win, idx as int, tile, selected, color@, divider@, grids@)
        },
{
    let ghost head = out@;
    match tile_layout(win, tile) {
        None => {
            assert(out@ =~= head + Seq::<char>::empty());
        },
        Some(mini) => {
            proof {
                lemma_tile_areas(*win, tile);
            }
            push_tile_color(out, selected, color);
            draw_tile_border(out, tile, idx, &win.name);
            draw_dividers(&mini.dividers, divider, out);
            push_mini_panes(out, &mini.panes, grids, selected);
            push_text(out, "\u{1b}[0m");
            proof {
                lemma_appended(
                    head,
                    tile_color(selected, color@),
                    tile_border(tile, tile_label(idx as int, win.name)),
                    tile_lines(*win, tile, divider@),
                    mini_panes(mini.panes@, grids@, selected, mini.panes@.len()),
                    "\u{1b}[0m"@,
                );
            }
        },
    }
}

} // verus!
