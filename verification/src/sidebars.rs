//! The sidebars and the status line, drawn whole.
use crate::canvas::{file_rows, file_sidebar_rows_for, lemma_canvas_divided, Canvas};
use crate::observatory::DevServerEntry;
use crate::paint::{
    mark_text, marks_text, push_repeated, repeated, Mark, MarkText, Panel,
};
use crate::rail::{
    agent_marks, change_counts, change_marks, count_text, file_footer, file_row_marks,
    heading_marks, mark_agents, mark_changes, mark_file_footer, mark_file_rows, mark_projects,
    mark_servers, project_marks, row, server_card_marks, ActionSlot, AgentCard, CardSlot, FileRow,
    GitStats, ListStyles, ProjectCard, ProjectStyles,
};
use crate::scope::SidebarScope;
use crate::status::{
    bar_pieces, button_pieces, draw_status_pieces, end_pieces, status_pieces, status_text,
    StatusContent, StatusStyles,
};
use crate::text::push_text;
use crate::types::Rect;
use vstd::prelude::*;

verus! {

/// Every card is one that can be counted.
pub open spec fn countable(slots: Seq<CardSlot>) -> bool {
    forall|i: int| 0 <= i < slots.len() ==> (#[trigger] slots[i]).item < usize::MAX
}

/// What the file tree shows.
#[derive(Debug)]
pub struct FileView {
    /// The Project whose files are shown; `None` where it is gone.
    pub project: Option<String>,
    /// Its changes, where there are any.
    pub changes: Option<GitStats>,
    pub files: Vec<FileRow>,
    /// The first entry in view, and the selected one.
    pub first: usize,
    pub selected: usize,
    /// What the user is asked, with what was typed so far.
    pub prompt: Option<FilePrompt>,
    /// The line below the tree where nothing is asked.
    pub status: String,
}

/// A question of the file tree, and what was typed so far.
#[derive(Debug)]
pub struct FilePrompt {
    pub label: String,
    pub value: String,
}

/// The line below the file tree.
pub open spec fn files_status(view: FileView) -> Seq<char> {
    match view.prompt {
        Some(prompt) => " "@ + prompt.label@ + ": "@ + prompt.value@ + "\u{2588}"@,
        None => " "@ + view.status@,
    }
}

/// The heading of the file tree.
pub open spec fn files_title(project: Option<String>) -> Seq<char> {
    " FILES \u{b7} "@ + match project {
        Some(name) => name@,
        None => "Project"@,
    }
}

/// The row with the counts of the changes.
pub open spec fn git_marks(
    changes: Option<GitStats>,
    styles: ListStyles,
    area: Rect,
    x: u16,
    inner: int,
) -> Seq<MarkText> {
    let at = crate::canvas::more(area.y as int, 3);
    match changes {
        Some(stats) if at < area.bottom() => seq![
            MarkText::At {
                row: at as u16,
                col: x,
                text: " Git"@,
                style: styles.border@ + "\u{2502}"@ + styles.muted@,
            },
        ] + change_marks(change_counts(stats, styles), 4, inner),
        _ => Seq::empty(),
    }
}

/// The line below the counts.
pub open spec fn git_line(changes: Option<GitStats>, styles: ListStyles, area: Rect, inner: int) -> Seq<
    MarkText,
> {
    match file_rows(area, changes is Some).divider {
        Some(at) => seq![row(at as int, repeated('\u{2500}', inner), styles.border@)],
        None => Seq::empty(),
    }
}

/// How many entries of the file tree are in view.
pub open spec fn files_in_view(view: FileView, area: Rect) -> nat {
    let rows = file_rows(area, view.changes is Some);
    let capacity = crate::canvas::less(rows.tree_end as int, rows.tree_start as int);
    let left = crate::canvas::less(view.files@.len() as int, view.first as int);
    if left <= capacity {
        left as nat
    } else {
        capacity as nat
    }
}

/// The marks of the file tree, from its heading to its footer.
pub open spec fn file_marks(view: FileView, styles: ListStyles, area: Rect, x: u16, inner: int) -> Seq<
    MarkText,
> {
    seq![row(crate::rail::below(area.y, 1), files_title(view.project), styles.heading@)]
        + git_marks(view.changes, styles, area, x, inner) + git_line(
        view.changes,
        styles,
        area,
        inner,
    ) + file_row_marks(
        view.files@,
        view.first as int,
        view.selected as int,
        file_rows(area, view.changes is Some).tree_start as int,
        styles,
        files_in_view(view, area),
    ) + file_footer(area, files_status(view), styles, inner)
}

fn mark_files(view: &FileView, styles: &ListStyles, area: Rect, x: u16, inner: usize) -> (list: Vec<
    Mark,
>)
    requires
        area.fits(),
    ensures
        marks_text(list@) == file_marks(*view, *styles, area, x, inner as int),
{
    let mut list: Vec<Mark> = Vec::new();
    let mut heading = " FILES \u{b7} ".to_owned();
    match &view.project {
        Some(name) => push_text(&mut heading, name.as_str()),
        None => push_text(&mut heading, "Project"),
    }
    assert(heading@ =~= files_title(view.project));
    let ghost title = row(
        crate::rail::below(area.y, 1),
        files_title(view.project),
        styles.heading@,
    );
    list.push(
        Mark::Row { row: area.y.saturating_add(1), text: heading, style: styles.heading.clone() },
    );
    assert(marks_text(list@) =~= seq![title]);
    let at: u16 = area.y.saturating_add(3);
    let bottom: u16 = area.y + area.h;
    let ghost before_git = marks_text(list@);
    if let Some(stats) = view.changes {
        if at < bottom {
            let mut style = styles.border.clone();
            push_text(&mut style, "\u{2502}");
            push_text(&mut style, styles.muted.as_str());
            let ghost said = MarkText::At {
                row: at,
                col: x,
                text: " Git"@,
                style: styles.border@ + "\u{2502}"@ + styles.muted@,
            };
            let mark = Mark::At { row: at, col: x, text: " Git".to_owned(), style };
            assert(mark_text(mark) == said);
            list.push(mark);
            assert(marks_text(list@) =~= before_git + seq![said]);
            mark_changes(&mut list, stats, styles, 4, inner);
        }
    }
    assert(marks_text(list@) =~= before_git + git_marks(
        view.changes,
        *styles,
        area,
        x,
        inner as int,
    ));
    let ghost before_line = marks_text(list@);
    let rows = file_sidebar_rows_for(area, view.changes.is_some());
    if let Some(divider) = rows.divider {
        let mut line = String::new();
        push_repeated(&mut line, '\u{2500}', inner);
        assert(line@ =~= repeated('\u{2500}', inner as int));
        let ghost said = row(divider as int, repeated('\u{2500}', inner as int), styles.border@);
        let mark = Mark::Row { row: divider, text: line, style: styles.border.clone() };
        assert(mark_text(mark) == said);
        list.push(mark);
        assert(marks_text(list@) =~= before_line + seq![said]);
    }
    assert(marks_text(list@) =~= before_line + git_line(
        view.changes,
        *styles,
        area,
        inner as int,
    ));
    mark_file_rows(
        &mut list,
        &view.files,
        view.first,
        view.selected,
        rows.tree_start,
        rows.capacity(),
        styles,
    );
    let mut status = " ".to_owned();
    match &view.prompt {
        Some(prompt) => {
            push_text(&mut status, prompt.label.as_str());
            push_text(&mut status, ": ");
            push_text(&mut status, prompt.value.as_str());
            push_text(&mut status, "\u{2588}");
        },
        None => push_text(&mut status, view.status.as_str()),
    }
    assert(status@ =~= files_status(*view));
    mark_file_footer(&mut list, area, status, styles, inner);
    assert(marks_text(list@) =~= file_marks(*view, *styles, area, x, inner as int));
    list
}

impl Canvas {
    /// The left sidebar.
    pub open spec fn left_panel(self, border: String, base: String) -> Panel {
        Panel {
            area: self.chrome().area,
            at_left: true,
            x: 0,
            inner: (self.left() - 1) as usize,
            border,
            base,
        }
    }

    /// The right sidebar.
    pub open spec fn right_panel(self, border: String, base: String) -> Panel {
        Panel {
            area: self.chrome().area,
            at_left: false,
            x: (self.cols - self.right()) as u16,
            inner: (self.right() - 1) as usize,
            border,
            base,
        }
    }

    fn make_right_panel(&self, border: &String, base: &String) -> (panel: Option<Panel>)
        ensures
            panel is None == (self.right() == 0),
            panel matches Some(p) ==> p == self.right_panel(*border, *base) && p.area.fits(),
    {
        proof {
            lemma_canvas_divided(*self);
        }
        let width: u16 = self.observatory_width();
        if width == 0 {
            return None;
        }
        Some(
            Panel {
                area: self.chrome_area().area,
                at_left: false,
                x: self.cols - width,
                inner: (width - 1) as usize,
                border: border.clone(),
                base: base.clone(),
            },
        )
    }

    /// Draw the left sidebar with the Projects, where it is shown.
    pub fn draw_sidebar(
        &self,
        cards: &Vec<ProjectCard>,
        slots: &Vec<CardSlot>,
        styles: &ProjectStyles,
        border: &String,
        out: &mut String,
    )
        requires
            cards@.len() < usize::MAX,
            countable(slots@),
        ensures
            final(out)@ == old(out)@ + if self.left() == 0 {
                Seq::empty()
            } else {
                let panel = self.left_panel(*border, styles.base);
                panel.painted(
                    project_marks(cards@, slots@, *styles, panel.area, panel.inner as int),
                )
            },
    {
        proof {
            lemma_canvas_divided(*self);
        }
        let width: u16 = self.left_width();
        if width == 0 {
            assert(out@ =~= old(out)@ + Seq::<char>::empty());
            return;
        }
        let panel = Panel {
            area: self.chrome_area().area,
            at_left: true,
            x: 0,
            inner: (width - 1) as usize,
            border: border.clone(),
            base: styles.base.clone(),
        };
        assert(panel == self.left_panel(*border, styles.base));
        let marks = mark_projects(cards, slots, styles, panel.area, panel.inner);
        panel.paint(&marks, out);
    }

    /// Draw the right sidebar with the agents, where it is shown.
    pub fn draw_agent_sidebar(
        &self,
        cards: &Vec<AgentCard>,
        slots: &Vec<CardSlot>,
        styles: &ListStyles,
        scope: SidebarScope,
        scope_label: &str,
        scope_x: u16,
        actions: &Vec<ActionSlot>,
        out: &mut String,
    )
        requires
            cards@.len() < usize::MAX,
            countable(slots@),
        ensures
            final(out)@ == old(out)@ + if self.right() == 0 {
                Seq::empty()
            } else {
                let panel = self.right_panel(styles.border, styles.base);
                panel.painted(
                    agent_marks(
                        cards@,
                        slots@,
                        *styles,
                        scope,
                        scope_label@,
                        scope_x,
                        actions@,
                        panel.area,
                        panel.inner as int,
                    ),
                )
            },
    {
        match self.make_right_panel(&styles.border, &styles.base) {
            None => {
                assert(out@ =~= old(out)@ + Seq::<char>::empty());
            },
            Some(panel) => {
                let marks = mark_agents(
                    cards,
                    slots,
                    styles,
                    scope,
                    scope_label,
                    scope_x,
                    actions,
                    panel.area,
                    panel.inner,
                );
                panel.paint(&marks, out);
            },
        }
    }

    /// Draw the right sidebar with the web servers, where it is shown.
    pub fn draw_web_server_sidebar(
        &self,
        servers: &Vec<DevServerEntry>,
        slots: &Vec<CardSlot>,
        styles: &ListStyles,
        scope: SidebarScope,
        scope_label: &str,
        scope_x: u16,
        out: &mut String,
    )
        requires
            servers@.len() < usize::MAX,
            countable(slots@),
        ensures
            final(out)@ == old(out)@ + if self.right() == 0 {
                Seq::empty()
            } else {
                let panel = self.right_panel(styles.border, styles.base);
                panel.painted(
                    heading_marks(
                        " WEB SERVERS"@,
                        count_text(slots@, servers@.len() as int),
                        *styles,
                        panel.area,
                        scope_label@,
                        scope_x,
                    ) + server_card_marks(servers@, slots@, *styles, scope, slots@.len()),
                )
            },
    {
        match self.make_right_panel(&styles.border, &styles.base) {
            None => {
                assert(out@ =~= old(out)@ + Seq::<char>::empty());
            },
            Some(panel) => {
                let marks = mark_servers(
                    servers,
                    slots,
                    styles,
                    scope,
                    scope_label,
                    scope_x,
                    panel.area,
                );
                panel.paint(&marks, out);
            },
        }
    }

    /// Draw the right sidebar with the files, where it is shown.
    pub fn draw_file_sidebar(&self, view: &FileView, styles: &ListStyles, out: &mut String)
        ensures
            final(out)@ == old(out)@ + if self.right() == 0 {
                Seq::empty()
            } else {
                let panel = self.right_panel(styles.border, styles.base);
                panel.painted(
                    file_marks(*view, *styles, panel.area, panel.x, panel.inner as int),
                )
            },
    {
        match self.make_right_panel(&styles.border, &styles.base) {
            None => {
                assert(out@ =~= old(out)@ + Seq::<char>::empty());
            },
            Some(panel) => {
                let marks = mark_files(view, styles, panel.area, panel.x, panel.inner);
                panel.paint(&marks, out);
            },
        }
    }

    /// Draw the status line, where it is shown.
    pub fn draw_status(&self, content: &StatusContent, styles: &StatusStyles, out: &mut String)
        requires
            forall|i: int|
                0 <= i < content.bar.tabs@.len() ==> (#[trigger] content.bar.tabs@[i]).item
                    < content.segments@.len(),
        ensures
            final(out)@ == old(out)@ + match self.chrome().status_row {
                None => Seq::empty(),
                Some(line) => status_text(
                    button_pieces(*content, *styles) + bar_pieces(*content, *styles) + end_pieces(
                        *content,
                        *styles,
                    ),
                    line as int,
                    styles.base@,
                    self.cols as int,
                ),
            },
    {
        match self.chrome_area().status_row {
            None => {
                assert(out@ =~= old(out)@ + Seq::<char>::empty());
            },
            Some(line) => {
                let pieces = status_pieces(content, styles);
                draw_status_pieces(out, &pieces, line, styles.base.as_str(), self.cols);
            },
        }
    }
}

} // verus!
