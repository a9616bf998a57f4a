//! Painting: escape sequences that place text on the canvas.
use crate::chrome_text::{fit_cell_text, push_spaces};
use crate::layout::Divider;
use crate::text::{push_decimal, push_text};
use crate::types::{Rect, SplitDir};
use vstd::prelude::*;

verus! {

/// The escape sequence that moves the cursor to a cell.
pub open spec fn goto(row: int, col: int) -> Seq<char> {
    "\u{1b}["@ + crate::text::decimal((row + 1) as nat) + ";"@ + crate::text::decimal(
        (col + 1) as nat,
    ) + "H"@
}

/// Append the escape sequence that moves the cursor to a cell.
pub fn push_goto(out: &mut String, row: u16, col: u16)
    ensures
        final(out)@ == old(out)@ + goto(row as int, col as int),
{
    let ghost head = out@;
    push_text(out, "\u{1b}[");
    push_decimal(out, row as u64 + 1);
    push_text(out, ";");
    push_decimal(out, col as u64 + 1);
    push_text(out, "H");
    assert(out@ =~= head + goto(row as int, col as int));
}

/// One character over and over.
pub open spec fn repeated(c: char, n: int) -> Seq<char> {
    Seq::new(
        if n < 0 {
            0
        } else {
            n as nat
        },
        |i: int| c,
    )
}

/// Append one character `n` times.
pub fn push_repeated(out: &mut String, c: char, n: usize)
    ensures
        final(out)@ == old(out)@ + repeated(c, n as int),
{
    let ghost head = out@;
    let mut i: usize = 0;
    assert(out@ =~= head + repeated(c, 0));
    while i < n
        invariant
            i <= n,
            out@ == head + repeated(c, i as int),
        decreases n - i,
    {
        out.push(c);
        i += 1;
        assert(out@ =~= head + repeated(c, i as int));
    }
}

/// A text fitted to a number of cells.
pub open spec fn fit(text: Seq<char>, width: int) -> Seq<char> {
    crate::chrome_text::fitted(
        crate::chrome_text::grapheme_clusters(text),
        crate::chrome_text::cluster_widths(text),
        width,
    )
}

/// The rows `from` up to `to` of a divider between columns.
pub open spec fn upright(x: int, from: int, to: int) -> Seq<char>
    decreases to - from,
{
    if to <= from {
        Seq::empty()
    } else {
        upright(x, from, to - 1) + goto(to - 1, x) + "\u{2502}"@
    }
}

/// One divider.
pub open spec fn divider_text(d: Divider) -> Seq<char> {
    match d.dir {
        SplitDir::Horizontal => upright(d.rect.x as int, d.rect.y as int, d.rect.bottom()),
        SplitDir::Vertical => goto(d.rect.y as int, d.rect.x as int) + repeated(
            '\u{2500}',
            d.rect.w as int,
        ),
    }
}

/// The first `n` dividers.
pub open spec fn dividers_text(list: Seq<Divider>, n: nat) -> Seq<char>
    decreases n,
{
    if n == 0 {
        Seq::empty()
    } else {
        dividers_text(list, (n - 1) as nat) + divider_text(list[n - 1])
    }
}

/// Append the lines between Panes; nothing where there are none.
pub fn draw_dividers(list: &Vec<Divider>, color: &str, out: &mut String)
    requires
        forall|i: int| 0 <= i < list@.len() ==> (#[trigger] list@[i]).rect.fits(),
    ensures
        final(out)@ == old(out)@ + if list@.len() == 0 {
            Seq::empty()
        } else {
            "\u{1b}["@ + color@ + "m"@ + dividers_text(list@, list@.len()) + "\u{1b}[0m"@
        },
{
    let ghost first = out@;
    if list.len() == 0 {
        assert(out@ =~= first + Seq::<char>::empty());
        return;
    }
    push_text(out, "\u{1b}[");
    push_text(out, color);
    push_text(out, "m");
    let ghost head = out@;
    let mut i: usize = 0;
    assert(out@ =~= head + dividers_text(list@, 0));
    while i < list.len()
        invariant
            i <= list@.len(),
            forall|k: int| 0 <= k < list@.len() ==> (#[trigger] list@[k]).rect.fits(),
            out@ == head + dividers_text(list@, i as nat),
        decreases list@.len() - i,
    {
        let ghost before = out@;
        let d = list[i];
        assert(list@[i as int].rect.fits());
        match d.dir {
            SplitDir::Horizontal => {
                let end: u16 = d.rect.y + d.rect.h;
                let mut y: u16 = d.rect.y;
                assert(out@ =~= before + upright(d.rect.x as int, d.rect.y as int, y as int));
                while y < end
                    invariant
                        d.rect.y <= y <= end,
                        out@ == before + upright(d.rect.x as int, d.rect.y as int, y as int),
                    decreases end - y,
                {
                    push_goto(out, y, d.rect.x);
                    push_text(out, "\u{2502}");
                    y += 1;
                    assert(out@ =~= before + upright(d.rect.x as int, d.rect.y as int, y as int));
                }
            },
            SplitDir::Vertical => {
                push_goto(out, d.rect.y, d.rect.x);
                push_repeated(out, '\u{2500}', d.rect.w as usize);
                assert(out@ =~= before + divider_text(d));
            },
        }
        assert(out@ =~= before + divider_text(d));
        i += 1;
        assert(out@ =~= head + dividers_text(list@, i as nat));
    }
    push_text(out, "\u{1b}[0m");
    assert(out@ =~= first + ("\u{1b}["@ + color@ + "m"@ + dividers_text(list@, list@.len())
        + "\u{1b}[0m"@));
}

/// One mark on a sidebar.
#[derive(Debug)]
pub enum Mark {
    /// A whole row, fitted; nothing below the sidebar's end.
    Row { row: u16, text: String, style: String },
    /// A text at a cell, as it is.
    At { row: u16, col: u16, text: String, style: String },
    /// A text where the last one ended.
    More { text: String, style: String },
}

/// What a mark says.
pub enum MarkText {
    Row { row: u16, text: Seq<char>, style: Seq<char> },
    At { row: u16, col: u16, text: Seq<char>, style: Seq<char> },
    More { text: Seq<char>, style: Seq<char> },
}

/// What a mark says.
pub open spec fn mark_text(m: Mark) -> MarkText {
    match m {
        Mark::Row { row, text, style } => MarkText::Row { row, text: text@, style: style@ },
        Mark::At { row, col, text, style } => MarkText::At {
            row,
            col,
            text: text@,
            style: style@,
        },
        Mark::More { text, style } => MarkText::More { text: text@, style: style@ },
    }
}

/// What a list of marks says.
pub open spec fn marks_text(list: Seq<Mark>) -> Seq<MarkText> {
    Seq::new(list.len(), |i: int| mark_text(list[i]))
}

/// A sidebar: its rows, its first column, and the cells beside its border.
#[derive(Debug)]
pub struct Panel {
    pub area: Rect,
    /// The sidebar stands at the left, with its border behind it.
    pub at_left: bool,
    pub x: u16,
    pub inner: usize,
    pub border: String,
    pub base: String,
}

impl Panel {
    /// The start of a row: the border comes first on the right.
    pub open spec fn row_start(self, row: int) -> Seq<char> {
        if self.at_left {
            goto(row, self.x as int)
        } else {
            goto(row, self.x as int) + self.border@ + "\u{2502}"@
        }
    }

    /// An empty row.
    pub open spec fn blank(self, row: int) -> Seq<char> {
        let gap = crate::chrome_text::spaces(self.inner as int);
        if self.at_left {
            goto(row, self.x as int) + self.base@ + gap + self.border@ + "\u{2502}"@
        } else {
            self.row_start(row) + self.base@ + gap
        }
    }

    /// The empty rows above `to`.
    pub open spec fn backdrop(self, to: int) -> Seq<char>
        decreases to - self.area.y,
    {
        if to <= self.area.y {
            Seq::empty()
        } else {
            self.backdrop(to - 1) + self.blank(to - 1)
        }
    }

    /// One mark.
    pub open spec fn mark(self, m: MarkText) -> Seq<char> {
        match m {
            MarkText::Row { row, text, style } => if row < self.area.bottom() {
                self.row_start(row as int) + style + fit(text, self.inner as int)
            } else {
                Seq::empty()
            },
            MarkText::At { row, col, text, style } => goto(row as int, col as int) + style + text,
            MarkText::More { text, style } => style + text,
        }
    }

    /// The first `n` marks.
    pub open spec fn marks(self, list: Seq<MarkText>, n: nat) -> Seq<char>
        decreases n,
    {
        if n == 0 {
            Seq::empty()
        } else {
            self.marks(list, (n - 1) as nat) + self.mark(list[n - 1])
        }
    }

    /// The whole sidebar.
    pub open spec fn painted(self, list: Seq<MarkText>) -> Seq<char> {
        self.backdrop(self.area.bottom()) + self.marks(list, list.len()) + "\u{1b}[0m"@
    }

    fn push_blank(&self, out: &mut String, row: u16)
        ensures
            final(out)@ == old(out)@ + self.blank(row as int),
    {
        let ghost head = out@;
        push_goto(out, row, self.x);
        if self.at_left {
            push_text(out, self.base.as_str());
            push_spaces(out, self.inner);
            push_text(out, self.border.as_str());
            push_text(out, "\u{2502}");
        } else {
            push_text(out, self.border.as_str());
            push_text(out, "\u{2502}");
            push_text(out, self.base.as_str());
            push_spaces(out, self.inner);
        }
        assert(out@ =~= head + self.blank(row as int));
    }

    fn push_mark(&self, out: &mut String, m: &Mark)
        requires
            self.area.fits(),
        ensures
            final(out)@ == old(out)@ + self.mark(mark_text(*m)),
    {
        let ghost head = out@;
        match m {
            Mark::Row { row, text, style } => {
                if *row < self.area.y + self.area.h {
                    push_goto(out, *row, self.x);
                    if !self.at_left {
                        push_text(out, self.border.as_str());
                        push_text(out, "\u{2502}");
                    }
                    push_text(out, style.as_str());
                    push_text(out, fit_cell_text(text.as_str(), self.inner).as_str());
                }
            },
            Mark::At { row, col, text, style } => {
                push_goto(out, *row, *col);
                push_text(out, style.as_str());
                push_text(out, text.as_str());
            },
            Mark::More { text, style } => {
                push_text(out, style.as_str());
                push_text(out, text.as_str());
            },
        }
        assert(out@ =~= head + self.mark(mark_text(*m)));
    }

    /// Append the sidebar with these marks.
    pub fn paint(&self, marks: &Vec<Mark>, out: &mut String)
        requires
            self.area.fits(),
        ensures
            final(out)@ == old(out)@ + self.painted(marks_text(marks@)),
    {
        let ghost first = out@;
        let end: u16 = self.area.y + self.area.h;
        let mut row: u16 = self.area.y;
        assert(out@ =~= first + self.backdrop(row as int));
        while row < end
            invariant
                self.area.y <= row <= end,
                out@ == first + self.backdrop(row as int),
            decreases end - row,
        {
            self.push_blank(out, row);
            row += 1;
            assert(out@ =~= first + self.backdrop(row as int));
        }
        let ghost head = out@;
        let mut i: usize = 0;
        let ghost said = marks_text(marks@);
        assert(out@ =~= head + self.marks(said, 0));
        while i < marks.len()
            invariant
                i <= marks@.len(),
                self.area.fits(),
                said == marks_text(marks@),
                out@ == head + self.marks(said, i as nat),
            decreases marks@.len() - i,
        {
            self.push_mark(out, &marks[i]);
            i += 1;
            assert(said[i - 1] == mark_text(marks@[i - 1]));
            assert(out@ =~= head + self.marks(said, i as nat));
        }
        push_text(out, "\u{1b}[0m");
        assert(out@ =~= first + self.painted(said));
    }
}

/// A text fitted to a number of cells, at a cell.
pub open spec fn placed(row: int, col: int, style: Seq<char>, text: Seq<char>, width: int) -> Seq<
    char,
> {
    goto(row, col) + style + fit(text, width)
}

/// Append a text fitted to a number of cells, at a cell.
pub fn push_placed(out: &mut String, row: u16, col: u16, style: &str, text: &str, width: usize)
    ensures
        final(out)@ == old(out)@ + placed(row as int, col as int, style@, text@, width as int),
{
    let ghost head = out@;
    push_goto(out, row, col);
    push_text(out, style);
    push_text(out, fit_cell_text(text, width).as_str());
    assert(out@ =~= head + placed(row as int, col as int, style@, text@, width as int));
}

/// A notification at its place: a title, a body, and how to open it.
pub open spec fn toast_text(
    rect: Rect,
    title: Seq<char>,
    body: Seq<char>,
    accent: Seq<char>,
    style: Seq<char>,
) -> Seq<char> {
    let x = rect.x as int;
    let w = rect.w as int;
    placed(rect.y as int, x, accent, " ! "@ + title, w) + placed(
        rect.y + 1,
        x,
        style,
        "   "@ + body,
        w,
    ) + placed(rect.y + 2, x, style, "   click to open  \u{b7}  8s"@, w) + "\u{1b}[0m"@
}

/// Append a notification.
pub fn draw_notification(
    rect: Rect,
    title: &str,
    body: &str,
    accent: &str,
    style: &str,
    out: &mut String,
)
    requires
        rect.y < u16::MAX - 2,
    ensures
        final(out)@ == old(out)@ + toast_text(rect, title@, body@, accent@, style@),
{
    let ghost head = out@;
    let mut first = " ! ".to_owned();
    push_text(&mut first, title);
    let mut second = "   ".to_owned();
    push_text(&mut second, body);
    let width: usize = rect.w as usize;
    push_placed(out, rect.y, rect.x, accent, first.as_str(), width);
    push_placed(out, rect.y + 1, rect.x, style, second.as_str(), width);
    push_placed(out, rect.y + 2, rect.x, style, "   click to open  \u{b7}  8s", width);
    push_text(out, "\u{1b}[0m");
    assert(out@ =~= head + toast_text(rect, title@, body@, accent@, style@));
}

/// Append where the cursor stands and whether it is seen.
pub fn append_cursor(position: Option<(u16, u16)>, visible: bool, out: &mut String)
    ensures
        final(out)@ == old(out)@ + match position {
            Some((col, row)) => goto(row as int, col as int),
            None => Seq::empty(),
        } + if visible {
            "\u{1b}[?25h"@
        } else {
            "\u{1b}[?25l"@
        },
{
    let ghost head = out@;
    if let Some((col, row)) = position {
        push_goto(out, row, col);
    }
    assert(out@ =~= head + match position {
        Some((col, row)) => goto(row as int, col as int),
        None => Seq::empty(),
    });
    if visible {
        push_text(out, "\u{1b}[?25h");
    } else {
        push_text(out, "\u{1b}[?25l");
    }
}

} // verus!
