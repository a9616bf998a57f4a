//! Whole frames: what every client of the Workspace sees.
use crate::canvas::{lemma_canvas_divided, Canvas};
use crate::hierarchy::{tabs_of, Win, Workspace, WorkspaceState};
use crate::layout::Layout;
use crate::observatory::DevServerEntry;
use crate::paint::{
    append_cursor, dividers_text, draw_dividers, draw_notification, goto, toast_text,
};
use crate::rail::{
    agent_marks, count_text, heading_marks, project_marks, server_card_marks, ActionSlot,
    AgentCard, CardSlot, ListStyles, ProjectCard, ProjectStyles,
};
use crate::scope::SidebarScope;
use crate::session::Toast;
use crate::sidebars::{countable, file_marks, FileView};
use crate::status::{
    bar_pieces, button_pieces, end_pieces, status_text, StatusContent, StatusStyles,
};
use crate::tabs::lemma_tabs_among;
use crate::text::push_text;
use crate::tiles::{draw_overview_tile, tile_text, PaneGrid};
use crate::types::Rect;
use vstd::prelude::*;

verus! {

/// The list that the right sidebar shows.
#[derive(Debug)]
pub enum RightList {
    Agents { cards: Vec<AgentCard>, actions: Vec<ActionSlot> },
    Files { view: FileView },
    WebServers { servers: Vec<DevServerEntry> },
}

/// What stands around the Panes.
#[derive(Debug)]
pub struct Chrome {
    pub projects: Vec<ProjectCard>,
    pub project_slots: Vec<CardSlot>,
    pub project_styles: ProjectStyles,
    /// The border of the left sidebar.
    pub border: String,
    pub right: RightList,
    pub right_slots: Vec<CardSlot>,
    pub right_styles: ListStyles,
    pub scope: SidebarScope,
    pub scope_label: String,
    pub scope_x: u16,
    pub status: StatusContent,
    pub status_styles: StatusStyles,
}

impl Chrome {
    /// The lists can be counted, and the Tab bar shows Tabs that there are.
    pub open spec fn wf(self) -> bool {
        &&& self.projects@.len() < usize::MAX
        &&& countable(self.project_slots@)
        &&& countable(self.right_slots@)
        &&& match self.right {
            RightList::Agents { cards, .. } => cards@.len() < usize::MAX,
            RightList::Files { .. } => true,
            RightList::WebServers { servers } => servers@.len() < usize::MAX,
        }
        &&& forall|i: int|
            0 <= i < self.status.bar.tabs@.len() ==> (#[trigger] self.status.bar.tabs@[i]).item
                < self.status.segments@.len()
    }

    /// The left sidebar.
    pub open spec fn left_text(self, canvas: Canvas) -> Seq<char> {
        if canvas.left() == 0 {
            Seq::empty()
        } else {
            let panel = canvas.left_panel(self.border, self.project_styles.base);
            panel.painted(
                project_marks(
                    self.projects@,
                    self.project_slots@,
                    self.project_styles,
                    panel.area,
                    panel.inner as int,
                ),
            )
        }
    }

    /// The right sidebar.
    pub open spec fn right_text(self, canvas: Canvas) -> Seq<char> {
        if canvas.right() == 0 {
            Seq::empty()
        } else {
            let styles = self.right_styles;
            let panel = canvas.right_panel(styles.border, styles.base);
            panel.painted(
                match self.right {
                    RightList::Agents { cards, actions } => agent_marks(
                        cards@,
                        self.right_slots@,
                        styles,
                        self.scope,
                        self.scope_label@,
                        self.scope_x,
                        actions@,
                        panel.area,
                        panel.inner as int,
                    ),
                    RightList::Files { view } => file_marks(
                        view,
                        styles,
                        panel.area,
                        panel.x,
                        panel.inner as int,
                    ),
                    RightList::WebServers { servers } => heading_marks(
                        " WEB SERVERS"@,
                        count_text(self.right_slots@, servers@.len() as int),
                        styles,
                        panel.area,
                        self.scope_label@,
                        self.scope_x,
                    ) + server_card_marks(
                        servers@,
                        self.right_slots@,
                        styles,
                        self.scope,
                        self.right_slots@.len(),
                    ),
                },
            )
        }
    }

    /// The status line.
    pub open spec fn bottom_text(self, canvas: Canvas) -> Seq<char> {
        let content = self.status;
        let styles = self.status_styles;
        match canvas.chrome().status_row {
            None => Seq::empty(),
            Some(line) => status_text(
                button_pieces(content, styles) + bar_pieces(content, styles) + end_pieces(
                    content,
                    styles,
                ),
                line as int,
                styles.base@,
                canvas.cols as int,
            ),
        }
    }

    /// Draw the right sidebar with the list that is chosen.
    pub fn draw_observatory_sidebar(&self, canvas: &Canvas, out: &mut String)
        requires
            self.wf(),
        ensures
            final(out)@ == old(out)@ + self.right_text(*canvas),
    {
        match &self.right {
            RightList::Agents { cards, actions } => canvas.draw_agent_sidebar(
                cards,
                &self.right_slots,
                &self.right_styles,
                self.scope,
                self.scope_label.as_str(),
                self.scope_x,
                actions,
                out,
            ),
            RightList::Files { view } => canvas.draw_file_sidebar(view, &self.right_styles, out),
            RightList::WebServers { servers } => canvas.draw_web_server_sidebar(
                servers,
                &self.right_slots,
                &self.right_styles,
                self.scope,
                self.scope_label.as_str(),
                self.scope_x,
                out,
            ),
        }
    }

    /// Draw the sidebars and the status line.
    pub fn draw(&self, canvas: &Canvas, out: &mut String)
        requires
            self.wf(),
        ensures
            final(out)@ == old(out)@ + self.left_text(*canvas) + self.right_text(*canvas)
                + self.bottom_text(*canvas),
    {
        canvas.draw_sidebar(
            &self.projects,
            &self.project_slots,
            &self.project_styles,
            &self.border,
            out,
        );
        self.draw_observatory_sidebar(canvas, out);
        canvas.draw_status(&self.status, &self.status_styles, out);
    }
}

/// The colors of the overview.
#[derive(Debug)]
pub struct TileColors {
    pub selected: String,
    /// The other tiles, and the lines between Panes.
    pub divider: String,
}

/// The first `n` tiles of the overview.
pub open spec fn tiles_text(
    windows: Seq<Win>,
    tabs: Seq<usize>,
    tiles: Seq<Rect>,
    sel: int,
    colors: TileColors,
    grids: Seq<PaneGrid>,
    n: nat,
) -> Seq<char>
    decreases n,
{
    if n == 0 {
        Seq::empty()
    } else {
        let i = n - 1;
        tiles_text(windows, tabs, tiles, sel, colors, grids, i as nat) + if tiles[i].w < 4
            || tiles[i].h < 3 {
            Seq::empty()
        } else {
            tile_text(
                windows[tabs[i] as int],
                i,
                tiles[i],
                i == sel,
                if i == sel {
                    colors.selected@
                } else {
                    colors.divider@
                },
                colors.divider@,
                grids,
            )
        }
    }
}

/// The tile that is selected among `n`.
pub open spec fn selected_among(sel: int, n: int) -> int {
    if sel < n {
        sel
    } else if n == 0 {
        0
    } else {
        n - 1
    }
}

impl WorkspaceState {
    /// The frame of the overview.
    pub open spec fn overview_frame(
        self,
        sel: int,
        canvas: Canvas,
        tiles: Seq<Rect>,
        grids: Seq<PaneGrid>,
        colors: TileColors,
        chrome: Chrome,
    ) -> Seq<char> {
        let tabs = tabs_of(self.windows, self.active_project);
        let shown = if tabs.len() <= tiles.len() {
            tabs.len()
        } else {
            tiles.len()
        };
        "\u{1b}[r\u{1b}[2J"@ + tiles_text(
            self.windows,
            tabs,
            tiles,
            selected_among(sel, tabs.len() as int),
            colors,
            grids,
            shown,
        ) + chrome.left_text(canvas) + chrome.right_text(canvas) + chrome.bottom_text(canvas)
            + "\u{1b}[H"@
    }
}

impl Workspace {
    fn draw_tiles(
        &self,
        tabs: &Vec<usize>,
        sel: usize,
        tiles: &Vec<Rect>,
        grids: &Vec<PaneGrid>,
        colors: &TileColors,
        out: &mut String,
    )
        requires
            forall|i: int| 0 <= i < tabs@.len() ==> (#[trigger] tabs@[i]) < self@.windows.len(),
            forall|i: int| 0 <= i < tiles@.len() ==> (#[trigger] tiles@[i]).fits(),
            forall|i: int| 0 <= i < grids@.len() ==> (#[trigger] grids@[i]).wf(),
        ensures
            final(out)@ == old(out)@ + tiles_text(
                self@.windows,
                tabs@,
                tiles@,
                sel as int,
                *colors,
                grids@,
                if tabs@.len() <= tiles@.len() {
                    tabs@.len()
                } else {
                    tiles@.len()
                },
            ),
    {
        let ghost head = out@;
        let ghost windows = self@.windows;
        let mut i: usize = 0;
        assert(out@ =~= head + tiles_text(windows, tabs@, tiles@, sel as int, *colors, grids@, 0));
        while i < tabs.len() && i < tiles.len()
            invariant
                windows == self@.windows,
                i <= tabs@.len(),
                i <= tiles@.len(),
                forall|i: int| 0 <= i < tabs@.len() ==> (#[trigger] tabs@[i]) < windows.len(),
                forall|i: int| 0 <= i < tiles@.len() ==> (#[trigger] tiles@[i]).fits(),
                forall|i: int| 0 <= i < grids@.len() ==> (#[trigger] grids@[i]).wf(),
                out@ == head + tiles_text(
                    windows,
                    tabs@,
                    tiles@,
                    sel as int,
                    *colors,
                    grids@,
                    i as nat,
                ),
            decreases tabs@.len() - i,
        {
            let selected = i == sel;
            let color = if selected {
                colors.selected.as_str()
            } else {
                colors.divider.as_str()
            };
            draw_overview_tile(
                &self.windows[tabs[i]],
                i,
                tiles[i],
                selected,
                color,
                colors.divider.as_str(),
                grids,
                out,
            );
            i += 1;
            assert(out@ =~= head + tiles_text(
                windows,
                tabs@,
                tiles@,
                sel as int,
                *colors,
                grids@,
                i as nat,
            ));
        }
    }

    /// The frame of the overview: a tile for each Tab of the active Project, as
    /// far as there are tiles, with the sidebars and the status line. A
    /// selection beyond the last Tab is that of the last Tab.
    pub fn build_overview_frame(
        &self,
        sel: usize,
        canvas: &Canvas,
        tiles: &Vec<Rect>,
        grids: &Vec<PaneGrid>,
        colors: &TileColors,
        chrome: &Chrome,
    ) -> (frame: String)
        requires
            chrome.wf(),
            forall|i: int| 0 <= i < tiles@.len() ==> (#[trigger] tiles@[i]).fits(),
            forall|i: int| 0 <= i < grids@.len() ==> (#[trigger] grids@[i]).wf(),
        ensures
            frame@ == self@.overview_frame(sel as int, *canvas, tiles@, grids@, *colors, *chrome),
    {
        let tabs = self.project_window_indices(self.active_project);
        proof {
            assert(self.windows.len() <= usize::MAX);
            lemma_tabs_among(self@.windows, self@.active_project, self@.windows.len());
        }
        let n: usize = tabs.len();
        let chosen: usize = if sel < n {
            sel
        } else if n == 0 {
            0
        } else {
            n - 1
        };
        let mut frame = "\u{1b}[r\u{1b}[2J".to_owned();
        self.draw_tiles(&tabs, chosen, tiles, grids, colors, &mut frame);
        chrome.draw(canvas, &mut frame);
        push_text(&mut frame, "\u{1b}[H");
        frame
    }
}

/// What a frame shows besides the chrome.
#[derive(Debug)]
pub struct Scene {
    /// The screens of the Panes, drawn.
    pub panes: String,
    pub layout: Layout,
    pub divider: String,
    pub toast: Option<Toast>,
    /// The colors of the notification's title and of its other rows.
    pub toast_accent: String,
    pub toast_style: String,
    /// The open menu, drawn; empty where none is open.
    pub menu: String,
    pub cursor: Option<(u16, u16)>,
    pub cursor_visible: bool,
}

impl Scene {
    /// The lines between the Panes.
    pub open spec fn lines_text(self) -> Seq<char> {
        let lines = self.layout.dividers@;
        if lines.len() == 0 {
            Seq::empty()
        } else {
            "\u{1b}["@ + self.divider@ + "m"@ + dividers_text(lines, lines.len()) + "\u{1b}[0m"@
        }
    }

    /// The notification, where there is room for one.
    pub open spec fn notice_text(self, canvas: Canvas) -> Seq<char> {
        match (self.toast, canvas.toast()) {
            (Some(toast), Some(rect)) => toast_text(
                rect,
                toast.title@,
                toast.body@,
                self.toast_accent@,
                self.toast_style@,
            ),
            _ => Seq::empty(),
        }
    }

    /// Where the cursor is left.
    pub open spec fn cursor_text(self) -> Seq<char> {
        let placed = match self.cursor {
            Some((col, row)) => goto(row as int, col as int),
            None => Seq::empty(),
        };
        placed + if self.cursor_visible {
            "\u{1b}[?25h"@
        } else {
            "\u{1b}[?25l"@
        }
    }

    /// The frame: the Panes and the lines between them, what stands around
    /// them, what lies over them, and at last the cursor.
    pub open spec fn frame(self, canvas: Canvas, chrome: Chrome) -> Seq<char> {
        "\u{1b}[r\u{1b}[2J"@ + self.panes@ + self.lines_text() + chrome.left_text(canvas)
            + chrome.right_text(canvas) + chrome.bottom_text(canvas) + self.notice_text(canvas)
            + self.menu@ + self.cursor_text()
    }

    fn draw_toast(&self, canvas: &Canvas, out: &mut String)
        ensures
            final(out)@ == old(out)@ + self.notice_text(*canvas),
    {
        let ghost head = out@;
        assert(head =~= head + Seq::<char>::empty());
        if let Some(toast) = &self.toast {
            if let Some(rect) = canvas.notification_rect() {
                proof {
                    lemma_canvas_divided(*canvas);
                }
                draw_notification(
                    rect,
                    toast.title.as_str(),
                    toast.body.as_str(),
                    self.toast_accent.as_str(),
                    self.toast_style.as_str(),
                    out,
                );
            }
        }
    }

    fn place_cursor(&self, out: &mut String)
        ensures
            final(out)@ == old(out)@ + self.cursor_text(),
    {
        let ghost head = out@;
        append_cursor(self.cursor, self.cursor_visible, out);
        assert(out@ =~= head + self.cursor_text());
    }

    /// The whole frame of the active Tab.
    pub fn build_full_frame(&self, canvas: &Canvas, chrome: &Chrome) -> (frame: String)
        requires
            chrome.wf(),
            forall|i: int|
                0 <= i < self.layout.dividers@.len() ==> (
                #[trigger] self.layout.dividers@[i]).rect.fits(),
        ensures
            frame@ == self.frame(*canvas, *chrome),
    {
        let mut frame = "\u{1b}[r\u{1b}[2J".to_owned();
        push_text(&mut frame, self.panes.as_str());
        draw_dividers(&self.layout.dividers, self.divider.as_str(), &mut frame);
        chrome.draw(canvas, &mut frame);
        self.draw_toast(canvas, &mut frame);
        push_text(&mut frame, self.menu.as_str());
        self.place_cursor(&mut frame);
        frame
    }
}

} // verus!
