//! The canvas: which cells belong to the Panes, the sidebars and the status
//! line.
use crate::hierarchy::{Win, Workspace};
use crate::layout::{Layout, PaneRect};
use crate::settings::{
    MAX_FILE_SIDEBAR_WIDTH, MAX_SIDEBAR_WIDTH, MIN_FILE_SIDEBAR_WIDTH, MIN_SIDEBAR_WIDTH,
};
use crate::types::Rect;
use vstd::prelude::*;

verus! {

/// The size of the canvas and what is shown on it.
#[derive(Clone, Copy, Debug, PartialEq, Eq, Structural)]
pub struct Canvas {
    pub cols: u16,
    pub rows: u16,
    pub sidebar: bool,
    pub sidebar_width: u16,
    pub file_sidebar: bool,
    pub file_sidebar_width: u16,
    pub status: bool,
    pub status_top: bool,
}

/// The room for Panes and the row of the status line.
#[derive(Clone, Copy, Debug, PartialEq, Eq, Structural)]
pub struct ChromeArea {
    pub area: Rect,
    pub status_row: Option<u16>,
}

/// `a - b`, but not below zero.
pub open spec fn less(a: int, b: int) -> int {
    if a < b {
        0
    } else {
        a - b
    }
}

/// `a + b`, but not above sixteen bits.
pub open spec fn more(a: int, b: int) -> int {
    if a + b > u16::MAX {
        u16::MAX as int
    } else {
        a + b
    }
}

impl Canvas {
    /// The width of the left sidebar; zero where it is not shown.
    pub open spec fn left(self) -> int {
        if !self.sidebar || self.cols < 72 || self.rows < 8 {
            0
        } else {
            let preferred = if self.cols < 100 {
                18
            } else {
                self.sidebar_width as int
            };
            let wide = crate::settings::clamped(
                preferred,
                MIN_SIDEBAR_WIDTH as int,
                MAX_SIDEBAR_WIDTH as int,
            );
            if wide <= self.cols - 48 {
                wide
            } else {
                self.cols - 48
            }
        }
    }

    /// The width of the right sidebar; zero where it is not shown.
    pub open spec fn right(self) -> int {
        if !self.file_sidebar || self.cols < 88 || self.rows < 8 {
            0
        } else {
            let wide = crate::settings::clamped(
                self.file_sidebar_width as int,
                MIN_FILE_SIDEBAR_WIDTH as int,
                MAX_FILE_SIDEBAR_WIDTH as int,
            );
            let room = less(self.cols - self.left(), 40);
            if wide <= room {
                wide
            } else {
                room
            }
        }
    }

    /// The width that is left for Panes.
    pub open spec fn middle(self) -> int {
        let w = less(less(self.cols as int, self.left()), self.right());
        if w == 0 {
            1
        } else {
            w
        }
    }

    /// The room for Panes and the row of the status line.
    pub open spec fn chrome(self) -> ChromeArea {
        let x = self.left() as u16;
        let w = self.middle() as u16;
        if !self.status || self.rows < 2 {
            ChromeArea { area: Rect { x, y: 0, w, h: self.rows }, status_row: None }
        } else if self.status_top {
            ChromeArea {
                area: Rect { x, y: 1, w, h: (self.rows - 1) as u16 },
                status_row: Some(0),
            }
        } else {
            ChromeArea {
                area: Rect { x, y: 0, w, h: (self.rows - 1) as u16 },
                status_row: Some((self.rows - 1) as u16),
            }
        }
    }

    /// The width of the left sidebar; zero where it is not shown.
    pub fn left_width(&self) -> (width: u16)
        ensures
            width == self.left(),
    {
        if !self.sidebar || self.cols < 72 || self.rows < 8 {
            return 0;
        }
        let preferred: u16 = if self.cols < 100 {
            18
        } else {
            self.sidebar_width
        };
        let wide: u16 = if preferred < MIN_SIDEBAR_WIDTH {
            MIN_SIDEBAR_WIDTH
        } else if preferred > MAX_SIDEBAR_WIDTH {
            MAX_SIDEBAR_WIDTH
        } else {
            preferred
        };
        if wide <= self.cols - 48 {
            wide
        } else {
            self.cols - 48
        }
    }

    /// The width of the right sidebar; zero where it is not shown.
    pub fn observatory_width(&self) -> (width: u16)
        ensures
            width == self.right(),
    {
        if !self.file_sidebar || self.cols < 88 || self.rows < 8 {
            return 0;
        }
        let left: u16 = self.left_width();
        let room: u16 = self.cols.saturating_sub(left).saturating_sub(40);
        let wide: u16 = if self.file_sidebar_width < MIN_FILE_SIDEBAR_WIDTH {
            MIN_FILE_SIDEBAR_WIDTH
        } else if self.file_sidebar_width > MAX_FILE_SIDEBAR_WIDTH {
            MAX_FILE_SIDEBAR_WIDTH
        } else {
            self.file_sidebar_width
        };
        if wide <= room {
            wide
        } else {
            room
        }
    }

    /// The room for Panes and the row of the status line.
    pub fn chrome_area(&self) -> (chrome: ChromeArea)
        ensures
            chrome == self.chrome(),
    {
        let x: u16 = self.left_width();
        let right: u16 = self.observatory_width();
        let w0: u16 = self.cols.saturating_sub(x).saturating_sub(right);
        let w: u16 = if w0 == 0 {
            1
        } else {
            w0
        };
        if !self.status || self.rows < 2 {
            return ChromeArea { area: Rect { x, y: 0, w, h: self.rows }, status_row: None };
        }
        if self.status_top {
            ChromeArea { area: Rect { x, y: 1, w, h: self.rows - 1 }, status_row: Some(0) }
        } else {
            ChromeArea {
                area: Rect { x, y: 0, w, h: self.rows - 1 },
                status_row: Some(self.rows - 1),
            }
        }
    }

    /// Whether the file tree is in view.
    pub fn file_manager_visible(&self, files_tab: bool) -> (visible: bool)
        ensures
            visible == (files_tab && self.right() > 0),
    {
        files_tab && self.observatory_width() > 0
    }

    /// The width of the Workspace button at the start of the status line, for a
    /// name of `name_width` cells.
    pub open spec fn button_width(self, name_width: int) -> int {
        if self.left() > 0 {
            self.left() - 1
        } else {
            more(name_width, 4)
        }
    }

    /// The width of the Workspace button.
    pub fn workspace_button_width(&self, name_width: usize) -> (width: u16)
        ensures
            width == self.button_width(name_width as int),
    {
        let left: u16 = self.left_width();
        if left > 0 {
            left - 1
        } else if name_width > 65531 {
            65535
        } else {
            (name_width + 4) as u16
        }
    }

    /// Where the text at the right of the status line goes; `None` where it has
    /// no cells, or would leave the Tab bar fewer than eleven.
    pub open spec fn status_right(self, name_width: int, text_width: int) -> Option<Rect> {
        match self.chrome().status_row {
            Some(row) => {
                let width = if text_width <= 48 {
                    text_width
                } else {
                    48
                };
                let left = more(self.button_width(name_width), 1);
                let x = less(less(self.cols as int, self.right()), width);
                if text_width > u16::MAX || width == 0 || less(x, left) < 11 {
                    None
                } else {
                    Some(Rect { x: x as u16, y: row, w: width as u16, h: 1 })
                }
            },
            None => None,
        }
    }

    /// Where the text at the right of the status line goes.
    pub fn status_right_rect(&self, name_width: usize, text_width: usize) -> (rect: Option<Rect>)
        ensures
            rect == self.status_right(name_width as int, text_width as int),
    {
        let row: u16 = self.chrome_area().status_row?;
        if text_width > 65535 || text_width == 0 {
            return None;
        }
        let width: u16 = if text_width <= 48 {
            text_width as u16
        } else {
            48
        };
        let left: u16 = self.workspace_button_width(name_width).saturating_add(1);
        let x: u16 = self.cols.saturating_sub(self.observatory_width()).saturating_sub(width);
        if x.saturating_sub(left) < 11 {
            None
        } else {
            Some(Rect { x, y: row, w: width, h: 1 })
        }
    }

    /// The cells of the Tab bar; `None` without a status line.
    pub open spec fn tab_bar(self, name_width: int, text_width: int) -> Option<Rect> {
        match self.chrome().status_row {
            Some(row) => {
                let start = more(self.button_width(name_width), 1);
                let x = if start <= self.cols {
                    start
                } else {
                    self.cols as int
                };
                let end = match self.status_right(name_width, text_width) {
                    Some(rect) => rect.x as int,
                    None => less(self.cols as int, self.right()),
                };
                Some(Rect { x: x as u16, y: row, w: less(end, x) as u16, h: 1 })
            },
            None => None,
        }
    }

    /// The cells of the Tab bar.
    pub fn tab_bar_area(&self, name_width: usize, text_width: usize) -> (rect: Option<Rect>)
        ensures
            rect == self.tab_bar(name_width as int, text_width as int),
    {
        let row: u16 = self.chrome_area().status_row?;
        let start: u16 = self.workspace_button_width(name_width).saturating_add(1);
        let x: u16 = if start <= self.cols {
            start
        } else {
            self.cols
        };
        let end: u16 = match self.status_right_rect(name_width, text_width) {
            Some(rect) => rect.x,
            None => self.cols.saturating_sub(self.observatory_width()),
        };
        Some(Rect { x, y: row, w: end.saturating_sub(x), h: 1 })
    }

    /// The first row of Project cards.
    pub fn sidebar_project_start(&self) -> (row: u16)
        ensures
            row == more(self.chrome().area.y as int, 3),
    {
        self.chrome_area().area.y.saturating_add(3)
    }

    /// Where a notification is shown; `None` where the room is too small.
    pub open spec fn toast(self) -> Option<Rect> {
        let area = self.chrome().area;
        if area.w < 24 || area.h < 4 {
            None
        } else {
            let w = if area.w <= 44 {
                area.w as int
            } else {
                44
            };
            Some(
                Rect {
                    x: (area.x + area.w - w) as u16,
                    y: (area.y + 1) as u16,
                    w: w as u16,
                    h: 3,
                },
            )
        }
    }

    /// Where a notification is shown.
    pub fn notification_rect(&self) -> (rect: Option<Rect>)
        ensures
            rect == self.toast(),
    {
        proof {
            lemma_canvas_divided(*self);
        }
        let area = self.chrome_area().area;
        if area.w < 24 || area.h < 4 {
            return None;
        }
        let w: u16 = if area.w <= 44 {
            area.w
        } else {
            44
        };
        Some(Rect { x: area.x + (area.w - w), y: area.y + 1, w, h: 3 })
    }

    /// Where the button that switches a list's scope begins, for a label of
    /// `label_width` cells.
    pub fn scope_button_x(&self, label_width: u16) -> (x: u16)
        ensures
            x == less(less(self.cols as int, label_width as int), 1),
    {
        self.cols.saturating_sub(label_width).saturating_sub(1)
    }

    /// The row of buttons below the list of agents; `None` where there is no
    /// room.
    pub open spec fn action_bar(self) -> Option<Rect> {
        let area = self.chrome().area;
        if self.right() <= 1 || area.h < 2 {
            None
        } else {
            Some(
                Rect {
                    x: (self.cols - self.right() + 1) as u16,
                    y: (area.y + area.h - 1) as u16,
                    w: (self.right() - 1) as u16,
                    h: 1,
                },
            )
        }
    }

    /// The row of buttons below the list of agents.
    pub fn agent_action_bar(&self) -> (rect: Option<Rect>)
        ensures
            rect == self.action_bar(),
    {
        proof {
            lemma_canvas_divided(*self);
        }
        let right: u16 = self.observatory_width();
        let area = self.chrome_area().area;
        if right <= 1 || area.h < 2 {
            return None;
        }
        Some(Rect { x: self.cols - right + 1, y: area.y + (area.h - 1), w: right - 1, h: 1 })
    }

    /// The cells of the tabs of the right sidebar, in the status line; `None`
    /// where it is not shown.
    pub open spec fn observatory_tabs(self) -> Option<Rect> {
        match self.chrome().status_row {
            Some(row) => if self.right() > 0 {
                Some(
                    Rect {
                        x: (self.cols - self.right() + 1) as u16,
                        y: row,
                        w: (self.right() - 1) as u16,
                        h: 1,
                    },
                )
            } else {
                None
            },
            None => None,
        }
    }

    /// The cells of the tabs of the right sidebar.
    pub fn observatory_tabs_area(&self) -> (rect: Option<Rect>)
        ensures
            rect == self.observatory_tabs(),
    {
        proof {
            lemma_canvas_divided(*self);
        }
        let row: u16 = self.chrome_area().status_row?;
        let right: u16 = self.observatory_width();
        if right == 0 {
            return None;
        }
        Some(Rect { x: self.cols - right + 1, y: row, w: right - 1, h: 1 })
    }
}

/// The sidebars and the Panes share the width of the canvas without overlap,
/// and the status line takes a row of its own.
pub proof fn lemma_canvas_divided(c: Canvas)
    ensures
        c.cols > 0 ==> c.left() + c.chrome().area.w + c.right() == c.cols,
        0 <= c.left() <= c.cols,
        0 <= c.right() <= c.cols,
        c.chrome().area.x == c.left(),
        c.chrome().area.y + c.chrome().area.h <= c.rows,
        c.chrome().status_row matches Some(row) ==> row < c.rows && (row < c.chrome().area.y || row
            >= c.chrome().area.y + c.chrome().area.h),
        c.left() > 0 ==> 16 <= c.left() <= 40,
        c.right() > 0 ==> c.right() <= 52,
        c.chrome().area.w >= 1,
        (c.left() > 0 || c.right() > 0) ==> c.chrome().area.w >= 20,
{
}

/// The rows of the file tree in the right sidebar.
#[derive(Clone, Copy, Debug, PartialEq, Eq, Structural)]
pub struct FileSidebarRows {
    pub divider: Option<u16>,
    pub tree_start: u16,
    pub tree_end: u16,
}

impl FileSidebarRows {
    /// How many entries are shown.
    pub fn capacity(self) -> (n: usize)
        ensures
            n == less(self.tree_end as int, self.tree_start as int),
    {
        self.tree_end.saturating_sub(self.tree_start) as usize
    }

    /// Which entry is shown in a row.
    pub open spec fn slot(self, row: u16) -> Option<int> {
        if self.tree_start <= row < self.tree_end {
            Some(row - self.tree_start)
        } else {
            None
        }
    }

    /// Which entry is shown in a row.
    pub fn slot_at(self, row: u16) -> (slot: Option<usize>)
        ensures
            crate::hierarchy::index_of(slot) == self.slot(row),
    {
        if row >= self.tree_start && row < self.tree_end {
            Some((row - self.tree_start) as usize)
        } else {
            None
        }
    }
}

/// The rows of the file tree: below the heading, and below the summary of
/// changes where there is one.
pub open spec fn file_rows(area: Rect, has_git_changes: bool) -> FileSidebarRows {
    let content = more(area.y as int, 3);
    let start = if has_git_changes {
        more(more(content, 1), 1)
    } else {
        content
    };
    let end = less(more(area.y as int, area.h as int), 3);
    FileSidebarRows {
        divider: if has_git_changes {
            Some(more(content, 1) as u16)
        } else {
            None
        },
        tree_start: start as u16,
        tree_end: if end >= start {
            end as u16
        } else {
            start as u16
        },
    }
}

/// The rows of the file tree in the right sidebar.
pub fn file_sidebar_rows_for(area: Rect, has_git_changes: bool) -> (rows: FileSidebarRows)
    ensures
        rows == file_rows(area, has_git_changes),
{
    let content: u16 = area.y.saturating_add(3);
    let divider: Option<u16> = if has_git_changes {
        Some(content.saturating_add(1))
    } else {
        None
    };
    let tree_start: u16 = match divider {
        Some(row) => row.saturating_add(1),
        None => content,
    };
    let end: u16 = area.y.saturating_add(area.h).saturating_sub(3);
    let tree_end: u16 = if end >= tree_start {
        end
    } else {
        tree_start
    };
    FileSidebarRows { divider, tree_start, tree_end }
}

/// What a Tab shows in an area: a zoomed Pane alone, or all its Panes.
pub open spec fn tab_rects(win: Win, area: Rect) -> Seq<PaneRect> {
    match win.zoomed {
        Some(pane) => seq![PaneRect { pane, rect: area }],
        None => crate::layout::rects(win.layout, area),
    }
}

/// The dividers that a Tab shows in an area.
pub open spec fn tab_dividers(win: Win, area: Rect) -> Seq<crate::layout::Divider> {
    match win.zoomed {
        Some(_) => Seq::empty(),
        None => crate::layout::dividers(win.layout, area),
    }
}

/// Lay a Tab out in an area.
pub fn lay_out_tab(win: &Win, area: Rect) -> (layout: Layout)
    requires
        area.fits(),
    ensures
        layout.panes@ == tab_rects(*win, area),
        layout.dividers@ == tab_dividers(*win, area),
{
    match win.zoomed {
        Some(pane) => {
            let mut panes: Vec<PaneRect> = Vec::new();
            panes.push(PaneRect { pane, rect: area });
            assert(panes@ =~= tab_rects(*win, area));
            Layout { panes, dividers: Vec::new() }
        },
        None => win.layout.compute(area),
    }
}

impl Workspace {
    /// Lay the active Tab out on a canvas.
    pub fn relayout(&self, canvas: &Canvas) -> (layout: Layout)
        requires
            self@.tabs_wf(),
        ensures
            layout.panes@ == tab_rects(self@.windows[self@.active_window], canvas.chrome().area),
            layout.dividers@ == tab_dividers(
                self@.windows[self@.active_window],
                canvas.chrome().area,
            ),
    {
        proof {
            lemma_canvas_divided(*canvas);
        }
        lay_out_tab(&self.windows[self.active_window], canvas.chrome_area().area)
    }
}

} // verus!
