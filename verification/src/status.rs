//! The status line: the Workspace button, the Tab bar, a templated text, and
//! the tabs of the right sidebar.
use crate::chrome_text::{
    cell_width, center_or_cut, cluster_widths, display_width, fit_cell_text,
    fit_centered_ellipsis, fitting, grapheme_clusters, sanitize_chrome_text, take_cells,
};
use crate::commands::ObservatoryTab;
use crate::hierarchy::{tabs_of, Win, Workspace};
use crate::paint::{fit, goto, push_goto, push_repeated, repeated};
use crate::rail::CardSlot;
use crate::tabs::lemma_tabs_among;
use crate::template::{render_named_template, rendered, TemplateValue};
use crate::text::{push_decimal, push_text, trim};
use crate::types::Rect;
use vstd::prelude::*;

verus! {

/// A text centered in a number of cells, or cut with an ellipsis.
pub open spec fn centered_text(text: Seq<char>, width: int) -> Seq<char> {
    center_or_cut(
        text,
        cell_width(text) as int,
        grapheme_clusters(text),
        cluster_widths(text),
        width,
        false,
    )
}

/// What a Tab is called in the Tab bar: its number, counted from one, and its
/// name.
pub open spec fn tab_core(n: int, name: Option<String>) -> Seq<char> {
    match name {
        Some(text) => crate::text::decimal((n + 1) as nat) + ":"@ + text@,
        None => crate::text::decimal((n + 1) as nat),
    }
}

/// The cells of a Tab in the Tab bar: at least eight.
pub open spec fn tab_width(core: Seq<char>) -> int {
    let wide = if cell_width(core) > usize::MAX - 4 {
        usize::MAX as int
    } else {
        cell_width(core) + 4
    };
    if wide < 8 {
        8
    } else {
        wide
    }
}

/// The text of a Tab in the Tab bar.
pub open spec fn tab_segment(n: int, name: Option<String>) -> Seq<char> {
    centered_text(tab_core(n, name), tab_width(tab_core(n, name)))
}

fn write_segment(n: usize, name: &Option<String>) -> (text: String)
    requires
        n < usize::MAX,
    ensures
        text@ == tab_segment(n as int, *name),
{
    let mut core = String::new();
    push_decimal(&mut core, n as u64 + 1);
    assert(core@ =~= crate::text::decimal((n + 1) as nat));
    match name {
        Some(text) => {
            push_text(&mut core, ":");
            push_text(&mut core, text.as_str());
        },
        None => {},
    }
    assert(core@ =~= tab_core(n as int, *name));
    let wide: usize = display_width(core.as_str()).saturating_add(4);
    fit_centered_ellipsis(
        core.as_str(),
        if wide < 8 {
            8
        } else {
            wide
        },
    )
}

/// The texts of a list of strings.
pub open spec fn segment_texts(windows: Seq<Win>, tabs: Seq<usize>) -> Seq<Seq<char>> {
    Seq::new(tabs.len(), |i: int| tab_segment(i, windows[tabs[i] as int].name))
}

impl Workspace {
    /// The texts of the active Project's Tabs in the Tab bar.
    pub fn window_segments(&self) -> (list: Vec<String>)
        ensures
            crate::search_path::texts(list@) == segment_texts(
                self@.windows,
                tabs_of(self@.windows, self@.active_project),
            ),
    {
        let tabs = self.project_window_indices(self.active_project);
        proof {
            assert(self.windows.len() <= usize::MAX);
            lemma_tabs_among(self@.windows, self@.active_project, self@.windows.len());
        }
        let mut list: Vec<String> = Vec::new();
        let ghost all = segment_texts(self@.windows, tabs@);
        let mut i: usize = 0;
        assert(crate::search_path::texts(list@) =~= all.take(0));
        while i < tabs.len()
            invariant
                i <= tabs@.len(),
                tabs@ == tabs_of(self@.windows, self@.active_project),
                forall|k: int|
                    0 <= k < tabs@.len() ==> (#[trigger] tabs@[k]) < self@.windows.len(),
                all == segment_texts(self@.windows, tabs@),
                crate::search_path::texts(list@) == all.take(i as int),
            decreases tabs@.len() - i,
        {
            assert(tabs.len() <= usize::MAX);
            let ghost before = list@;
            let text = write_segment(i, &self.windows[tabs[i]].name);
            let ghost said = text@;
            list.push(text);
            i += 1;
            assert(all[i - 1] == said);
            assert(crate::search_path::texts(list@) =~= crate::search_path::texts(before).push(said));
            assert(crate::search_path::texts(list@) =~= all.take(i as int));
        }
        assert(all.take(i as int) =~= all);
        list
    }
}

/// What the status templates and the window title may name.
#[derive(Debug)]
pub struct SessionFacts {
    pub hostname: String,
    pub workspace: String,
    pub project: String,
    pub tab_name: Option<String>,
    /// The Tab's position in its Project, from zero.
    pub tab_position: usize,
    pub pane: u64,
    pub terminal_title: String,
    pub agent: Option<String>,
    pub agent_status: Option<String>,
    pub zoomed: bool,
}

/// A number as a text.
pub open spec fn number_text(n: int) -> Seq<char> {
    crate::text::decimal(n as nat)
}

fn write_number(n: u64) -> (text: String)
    ensures
        text@ == number_text(n as int),
{
    let mut text = String::new();
    push_decimal(&mut text, n);
    assert(text@ =~= number_text(n as int));
    text
}

/// A text, or nothing.
pub open spec fn text_or_empty(text: Option<String>) -> Seq<char> {
    match text {
        Some(t) => t@,
        None => Seq::empty(),
    }
}

fn given_or_empty(text: &Option<String>) -> (out: String)
    ensures
        out@ == text_or_empty(*text),
{
    match text {
        Some(t) => t.clone(),
        None => {
            let out = String::new();
            assert(out@ =~= Seq::empty());
            out
        },
    }
}

/// The names that a template may use, each with its value.
pub open spec fn session_values(facts: SessionFacts) -> Seq<(Seq<char>, Seq<char>)> {
    seq![
        ("hostname"@, facts.hostname@),
        ("workspace"@, facts.workspace@),
        ("project"@, facts.project@),
        (
            "tab"@,
            match facts.tab_name {
                Some(name) => name@,
                None => number_text(facts.tab_position + 1),
            },
        ),
        ("pane"@, number_text(facts.pane as int)),
        ("terminal_title"@, facts.terminal_title@),
        ("agent"@, text_or_empty(facts.agent)),
        ("agent_status"@, text_or_empty(facts.agent_status)),
        (
            "zoom"@,
            if facts.zoomed {
                "ZOOM"@
            } else {
                Seq::empty()
            },
        ),
    ]
}

/// The names and values of a list.
pub open spec fn value_texts(values: Seq<TemplateValue>) -> Seq<(Seq<char>, Seq<char>)> {
    Seq::new(values.len(), |i: int| (values[i].name@, values[i].value@))
}

fn named_value(name: &str, value: String) -> (v: TemplateValue)
    ensures
        v.name@ == name@,
        v.value == value,
{
    TemplateValue { name: name.to_owned(), value }
}

/// The names that a template may use, each with its value.
pub fn list_session_values(facts: &SessionFacts) -> (values: Vec<TemplateValue>)
    requires
        facts.tab_position < u64::MAX,
    ensures
        value_texts(values@) == session_values(*facts),
{
    let tab = match &facts.tab_name {
        Some(name) => name.clone(),
        None => write_number(facts.tab_position as u64 + 1),
    };
    let zoom = if facts.zoomed {
        "ZOOM".to_owned()
    } else {
        let out = String::new();
        assert(out@ =~= Seq::empty());
        out
    };
    let mut values: Vec<TemplateValue> = Vec::new();
    values.push(named_value("hostname", facts.hostname.clone()));
    values.push(named_value("workspace", facts.workspace.clone()));
    values.push(named_value("project", facts.project.clone()));
    values.push(named_value("tab", tab));
    values.push(named_value("pane", write_number(facts.pane)));
    values.push(named_value("terminal_title", facts.terminal_title.clone()));
    values.push(named_value("agent", given_or_empty(&facts.agent)));
    values.push(named_value("agent_status", given_or_empty(&facts.agent_status)));
    values.push(named_value("zoom", zoom));
    assert(value_texts(values@) =~= session_values(*facts));
    values
}

/// The title of the window: the rendered template, made fit for a terminal.
/// `None` for an empty template or one that does not render.
pub fn window_title(template: &str, values: &Vec<TemplateValue>) -> (title: Option<String>)
    ensures
        match title {
            Some(text) => template@.len() > 0 && rendered(template@, values@) is Some && text@
                == crate::chrome_text::sanitized(rendered(template@, values@).unwrap(), 512),
            None => template@.len() == 0 || rendered(template@, values@) is None,
        },
{
    if template.is_empty() {
        assert(template@.len() == 0);
        return None;
    }
    assert(template@.len() > 0);
    let text = render_named_template(template, values)?;
    Some(sanitize_chrome_text(text.as_str(), 512))
}

/// The text at the right of the status line: the rendered template, trimmed and
/// made fit for a terminal; empty where it does not render.
pub fn status_right_text(template: &str, values: &Vec<TemplateValue>) -> (text: String)
    ensures
        text@ == match rendered(template@, values@) {
            Some(t) => crate::chrome_text::sanitized(crate::text::trimmed(t), 48),
            None => Seq::empty(),
        },
{
    match render_named_template(template, values) {
        Some(t) => sanitize_chrome_text(trim(t.as_str()).as_str(), 48),
        None => {
            let out = String::new();
            assert(out@ =~= Seq::empty());
            out
        },
    }
}

/// The label of the Workspace button: a warning sign where saving failed, the
/// name, and an arrow.
pub open spec fn button_label(name: Seq<char>, failing: bool, width: int) -> Seq<char> {
    if width < 3 {
        fit("\u{25BE}"@, width)
    } else {
        let shown = if failing {
            "! "@ + name
        } else {
            name
        };
        " "@ + fit(shown, width - 3) + "\u{25BE} "@
    }
}

/// The label of the Workspace button, for a button of `width` cells.
pub fn workspace_button(name: &str, failing: bool, width: usize) -> (label: String)
    ensures
        label@ == button_label(name@, failing, width as int),
{
    if width < 3 {
        return fit_cell_text("\u{25BE}", width);
    }
    let shown = if failing {
        let mut text = "! ".to_owned();
        push_text(&mut text, name);
        text
    } else {
        name.to_owned()
    };
    let mut label = " ".to_owned();
    push_text(&mut label, fit_cell_text(shown.as_str(), width - 3).as_str());
    push_text(&mut label, "\u{25BE} ");
    label
}

/// Where the controls of the Tab bar are.
#[derive(Debug)]
pub struct TabBarLayout {
    pub tabs: Vec<CardSlot>,
    pub scroll_left: Option<Rect>,
    pub scroll_right: Option<Rect>,
    pub new_tab: Option<Rect>,
    pub hidden_before: bool,
    pub hidden_after: bool,
}

/// A tab of the right sidebar in the status line.
#[derive(Debug)]
pub struct ObservatorySlot {
    pub tab: ObservatoryTab,
    pub rect: Rect,
    pub label: String,
}

/// A piece of the status line: padding up to a column, a style, a text, and the
/// style after it.
#[derive(Debug)]
pub struct StatusPiece {
    pub at: u16,
    pub style: String,
    pub text: String,
    pub after: String,
}

/// The value of a piece.
pub struct PieceText {
    pub at: int,
    pub style: Seq<char>,
    pub text: Seq<char>,
    pub after: Seq<char>,
}

/// The value of a piece.
pub open spec fn piece_text(p: StatusPiece) -> PieceText {
    PieceText { at: p.at as int, style: p.style@, text: p.text@, after: p.after@ }
}

/// The values of a list of pieces.
pub open spec fn pieces_text(list: Seq<StatusPiece>) -> Seq<PieceText> {
    Seq::new(list.len(), |i: int| piece_text(list[i]))
}

/// What the first `n` pieces write on a line of `cols` cells, and the column
/// where they end. No piece reaches past the line.
pub open spec fn line_text(list: Seq<PieceText>, cols: int, n: nat) -> (Seq<char>, int)
    decreases n,
{
    if n == 0 {
        (Seq::empty(), 0)
    } else {
        let (done, col) = line_text(list, cols, (n - 1) as nat);
        let p = list[n - 1];
        let target = if p.at < cols {
            p.at
        } else {
            cols
        };
        let start = if col < target {
            target
        } else {
            col
        };
        let shown = fitting(grapheme_clusters(p.text), cluster_widths(p.text), cols - start);
        (
            done + repeated(' ', start - col) + p.style + shown.0 + p.after,
            start + shown.1,
        )
    }
}

/// The whole status line.
pub open spec fn status_text(
    list: Seq<PieceText>,
    row: int,
    base: Seq<char>,
    cols: int,
) -> Seq<char> {
    let (shown, col) = line_text(list, cols, list.len());
    goto(row, 0) + base + shown + repeated(' ', cols - col) + "\u{1b}[0m"@
}

/// The pieces end inside the line.
pub proof fn lemma_line_bounded(list: Seq<PieceText>, cols: int, n: nat)
    requires
        0 <= cols,
        n <= list.len(),
    ensures
        0 <= line_text(list, cols, n).1 <= cols,
    decreases n,
{
    if n > 0 {
        lemma_line_bounded(list, cols, (n - 1) as nat);
        let col = line_text(list, cols, (n - 1) as nat).1;
        let p = list[n - 1];
        let target = if p.at < cols {
            p.at
        } else {
            cols
        };
        let start = if col < target {
            target
        } else {
            col
        };
        crate::chrome_text::lemma_fitting_bound(
            grapheme_clusters(p.text),
            cluster_widths(p.text),
            cols - start,
        );
    }
}

/// Write one piece behind column `col`.
fn push_piece(out: &mut String, p: &StatusPiece, cols: usize, col: usize) -> (end: usize)
    requires
        col <= cols,
    ensures
        ({
            let target = if p.at < cols {
                p.at as int
            } else {
                cols as int
            };
            let start = if col < target {
                target
            } else {
                col as int
            };
            let shown = fitting(grapheme_clusters(p.text@), cluster_widths(p.text@), cols - start);
            &&& final(out)@ == old(out)@ + repeated(' ', start - col) + p.style@ + shown.0
                + p.after@
            &&& end == start + shown.1
            &&& end <= cols
        }),
{
    let target: usize = if (p.at as usize) < cols {
        p.at as usize
    } else {
        cols
    };
    let start: usize = if col < target {
        target
    } else {
        col
    };
    push_repeated(out, ' ', start - col);
    push_text(out, p.style.as_str());
    let (shown, used) = take_cells(p.text.as_str(), cols - start);
    push_text(out, shown.as_str());
    push_text(out, p.after.as_str());
    start + used
}

/// Write the status line.
pub fn draw_status_pieces(out: &mut String, list: &Vec<StatusPiece>, row: u16, base: &str, cols: u16)
    ensures
        final(out)@ == old(out)@ + status_text(
            pieces_text(list@),
            row as int,
            base@,
            cols as int,
        ),
{
    let ghost before = out@;
    let ghost said = pieces_text(list@);
    push_goto(out, row, 0);
    push_text(out, base);
    let ghost head = out@;
    let width: usize = cols as usize;
    let mut col: usize = 0;
    let mut i: usize = 0;
    assert(out@ =~= head + line_text(said, cols as int, 0).0);
    while i < list.len()
        invariant
            i <= list@.len(),
            width == cols,
            col <= width,
            said == pieces_text(list@),
            out@ == head + line_text(said, cols as int, i as nat).0,
            col == line_text(said, cols as int, i as nat).1,
        decreases list@.len() - i,
    {
        assert(said[i as int] == piece_text(list@[i as int]));
        col = push_piece(out, &list[i], width, col);
        i += 1;
        assert(out@ =~= head + line_text(said, cols as int, i as nat).0);
    }
    push_repeated(out, ' ', width - col);
    push_text(out, "\u{1b}[0m");
    assert(out@ =~= before + status_text(said, row as int, base@, cols as int));
}

/// The styles of the status line.
#[derive(Debug)]
pub struct StatusStyles {
    pub base: String,
    pub active: String,
    pub button: String,
    pub disabled: String,
    pub divider: String,
}

/// What the status line shows.
#[derive(Debug)]
pub struct StatusContent {
    /// The label of the Workspace button, and the cells it has.
    pub workspace: String,
    pub workspace_width: usize,
    pub bar: TabBarLayout,
    pub segments: Vec<String>,
    /// The active Tab's position in the Tab bar.
    pub active_tab: usize,
    pub right: Option<Rect>,
    pub right_text: String,
    /// The column where the right sidebar begins, and whether it is shown.
    pub observatory_x: u16,
    pub observatory_shown: bool,
    pub slots: Vec<ObservatorySlot>,
    pub selected: ObservatoryTab,
}

/// A control that is there or not.
pub open spec fn control(
    rect: Option<Rect>,
    text: Seq<char>,
    style: Seq<char>,
    base: Seq<char>,
) -> Seq<PieceText> {
    match rect {
        Some(r) => seq![
            PieceText { at: r.x as int, style, text: fit(text, r.w as int), after: base },
        ],
        None => Seq::empty(),
    }
}

/// The pieces of the first `n` Tabs.
pub open spec fn tab_pieces(c: StatusContent, s: StatusStyles, n: nat) -> Seq<PieceText>
    decreases n,
{
    if n == 0 {
        Seq::empty()
    } else {
        let slot = c.bar.tabs@[n - 1];
        let on = slot.item == c.active_tab;
        tab_pieces(c, s, (n - 1) as nat).push(
            PieceText {
                at: slot.rect.x as int,
                style: if on {
                    s.active@
                } else {
                    Seq::empty()
                },
                text: fit(c.segments@[slot.item as int]@, slot.rect.w as int),
                after: if on {
                    s.base@
                } else {
                    Seq::empty()
                },
            },
        )
    }
}

/// The pieces of the first `n` tabs of the right sidebar.
pub open spec fn observatory_pieces(c: StatusContent, s: StatusStyles, n: nat) -> Seq<PieceText>
    decreases n,
{
    if n == 0 {
        Seq::empty()
    } else {
        let slot = c.slots@[n - 1];
        let on = slot.tab == c.selected;
        observatory_pieces(c, s, (n - 1) as nat).push(
            PieceText {
                at: slot.rect.x as int,
                style: if on {
                    s.button@
                } else {
                    Seq::empty()
                },
                text: centered_text(slot.label@, slot.rect.w as int),
                after: if on {
                    s.base@
                } else {
                    Seq::empty()
                },
            },
        )
    }
}

/// A scroll arrow is lit where Tabs are hidden on its side.
pub open spec fn arrow_style(hidden: bool, s: StatusStyles) -> Seq<char> {
    if hidden {
        s.button@
    } else {
        s.disabled@
    }
}

/// The Workspace button and the divider behind it.
pub open spec fn button_pieces(c: StatusContent, s: StatusStyles) -> Seq<PieceText> {
    seq![
        PieceText {
            at: 0,
            style: s.button@,
            text: fit(c.workspace@, c.workspace_width as int),
            after: s.base@,
        },
        PieceText { at: 0, style: s.divider@, text: "\u{2502}"@, after: s.base@ },
    ]
}

/// The Tab bar and its controls.
pub open spec fn bar_pieces(c: StatusContent, s: StatusStyles) -> Seq<PieceText> {
    control(c.bar.scroll_left, " < "@, arrow_style(c.bar.hidden_before, s), s.base@)
        + tab_pieces(c, s, c.bar.tabs@.len()) + control(
        c.bar.scroll_right,
        " > "@,
        arrow_style(c.bar.hidden_after, s),
        s.base@,
    ) + control(c.bar.new_tab, " + "@, s.button@, s.base@)
}

/// The templated text, and the tabs of the right sidebar.
pub open spec fn end_pieces(c: StatusContent, s: StatusStyles) -> Seq<PieceText> {
    let divider = if c.observatory_shown {
        PieceText {
            at: c.observatory_x as int,
            style: s.divider@,
            text: "\u{2502}"@,
            after: s.base@,
        }
    } else {
        PieceText {
            at: c.observatory_x as int,
            style: Seq::empty(),
            text: Seq::empty(),
            after: Seq::empty(),
        }
    };
    control(c.right, c.right_text@, s.disabled@, s.base@).push(divider) + observatory_pieces(
        c,
        s,
        c.slots@.len(),
    )
}

fn push_status_piece(list: &mut Vec<StatusPiece>, at: u16, style: &str, text: String, after: &str)
    ensures
        pieces_text(final(list)@) == pieces_text(old(list)@).push(
            PieceText { at: at as int, style: style@, text: text@, after: after@ },
        ),
{
    let ghost before = list@;
    let ghost said = PieceText { at: at as int, style: style@, text: text@, after: after@ };
    let piece = StatusPiece { at, style: style.to_owned(), text, after: after.to_owned() };
    assert(piece_text(piece) == said);
    list.push(piece);
    assert(pieces_text(list@) =~= pieces_text(before).push(said));
}

fn push_control(
    list: &mut Vec<StatusPiece>,
    rect: Option<Rect>,
    text: &str,
    style: &str,
    base: &str,
)
    ensures
        pieces_text(final(list)@) == pieces_text(old(list)@) + control(
            rect,
            text@,
            style@,
            base@,
        ),
{
    let ghost before = pieces_text(list@);
    if let Some(r) = rect {
        push_status_piece(list, r.x, style, fit_cell_text(text, r.w as usize), base);
    }
    assert(pieces_text(list@) =~= before + control(rect, text@, style@, base@));
}

fn push_tabs(list: &mut Vec<StatusPiece>, c: &StatusContent, s: &StatusStyles)
    requires
        forall|i: int|
            0 <= i < c.bar.tabs@.len() ==> (#[trigger] c.bar.tabs@[i]).item < c.segments@.len(),
    ensures
        pieces_text(final(list)@) == pieces_text(old(list)@) + tab_pieces(
            *c,
            *s,
            c.bar.tabs@.len(),
        ),
{
    proof {
        reveal_strlit("");
        assert(""@ =~= Seq::empty());
    }
    let ghost before = pieces_text(list@);
    let mut i: usize = 0;
    assert(pieces_text(list@) =~= before + tab_pieces(*c, *s, 0));
    while i < c.bar.tabs.len()
        invariant
            i <= c.bar.tabs@.len(),
            ""@ == Seq::<char>::empty(),
            forall|i: int|
                0 <= i < c.bar.tabs@.len() ==> (#[trigger] c.bar.tabs@[i]).item
                    < c.segments@.len(),
            pieces_text(list@) == before + tab_pieces(*c, *s, i as nat),
        decreases c.bar.tabs@.len() - i,
    {
        let slot = c.bar.tabs[i];
        let text = fit_cell_text(c.segments[slot.item].as_str(), slot.rect.w as usize);
        if slot.item == c.active_tab {
            push_status_piece(list, slot.rect.x, s.active.as_str(), text, s.base.as_str());
        } else {
            push_status_piece(list, slot.rect.x, "", text, "");
        }
        i += 1;
        assert(pieces_text(list@) =~= before + tab_pieces(*c, *s, i as nat));
    }
}

fn push_observatory(list: &mut Vec<StatusPiece>, c: &StatusContent, s: &StatusStyles)
    ensures
        pieces_text(final(list)@) == pieces_text(old(list)@) + observatory_pieces(
            *c,
            *s,
            c.slots@.len(),
        ),
{
    proof {
        reveal_strlit("");
        assert(""@ =~= Seq::empty());
    }
    let ghost before = pieces_text(list@);
    let mut i: usize = 0;
    assert(pieces_text(list@) =~= before + observatory_pieces(*c, *s, 0));
    while i < c.slots.len()
        invariant
            i <= c.slots@.len(),
            ""@ == Seq::<char>::empty(),
            pieces_text(list@) == before + observatory_pieces(*c, *s, i as nat),
        decreases c.slots@.len() - i,
    {
        let slot = &c.slots[i];
        let text = fit_centered_ellipsis(slot.label.as_str(), slot.rect.w as usize);
        if slot.tab == c.selected {
            push_status_piece(list, slot.rect.x, s.button.as_str(), text, s.base.as_str());
        } else {
            push_status_piece(list, slot.rect.x, "", text, "");
        }
        i += 1;
        assert(pieces_text(list@) =~= before + observatory_pieces(*c, *s, i as nat));
    }
}

fn push_bar(list: &mut Vec<StatusPiece>, c: &StatusContent, s: &StatusStyles)
    requires
        forall|i: int|
            0 <= i < c.bar.tabs@.len() ==> (#[trigger] c.bar.tabs@[i]).item < c.segments@.len(),
    ensures
        pieces_text(final(list)@) == pieces_text(old(list)@) + bar_pieces(*c, *s),
{
    let ghost before = pieces_text(list@);
    let left = if c.bar.hidden_before {
        s.button.as_str()
    } else {
        s.disabled.as_str()
    };
    push_control(list, c.bar.scroll_left, " < ", left, s.base.as_str());
    push_tabs(list, c, s);
    let right = if c.bar.hidden_after {
        s.button.as_str()
    } else {
        s.disabled.as_str()
    };
    push_control(list, c.bar.scroll_right, " > ", right, s.base.as_str());
    push_control(list, c.bar.new_tab, " + ", s.button.as_str(), s.base.as_str());
    assert(pieces_text(list@) =~= before + bar_pieces(*c, *s));
}

fn push_end(list: &mut Vec<StatusPiece>, c: &StatusContent, s: &StatusStyles)
    ensures
        pieces_text(final(list)@) == pieces_text(old(list)@) + end_pieces(*c, *s),
{
    proof {
        reveal_strlit("");
        assert(""@ =~= Seq::empty());
    }
    let ghost before = pieces_text(list@);
    push_control(list, c.right, c.right_text.as_str(), s.disabled.as_str(), s.base.as_str());
    if c.observatory_shown {
        push_status_piece(
            list,
            c.observatory_x,
            s.divider.as_str(),
            "\u{2502}".to_owned(),
            s.base.as_str(),
        );
    } else {
        push_status_piece(list, c.observatory_x, "", "".to_owned(), "");
    }
    push_observatory(list, c, s);
    assert(pieces_text(list@) =~= before + end_pieces(*c, *s));
}

/// The pieces of the status line, from left to right: the Workspace button, the
/// Tab bar with its controls, the templated text, and the tabs of the right
/// sidebar.
pub fn status_pieces(c: &StatusContent, s: &StatusStyles) -> (list: Vec<StatusPiece>)
    requires
        forall|i: int|
            0 <= i < c.bar.tabs@.len() ==> (#[trigger] c.bar.tabs@[i]).item < c.segments@.len(),
    ensures
        pieces_text(list@) == button_pieces(*c, *s) + bar_pieces(*c, *s) + end_pieces(*c, *s),
{
    let mut list: Vec<StatusPiece> = Vec::new();
    push_status_piece(
        &mut list,
        0,
        s.button.as_str(),
        fit_cell_text(c.workspace.as_str(), c.workspace_width),
        s.base.as_str(),
    );
    push_status_piece(&mut list, 0, s.divider.as_str(), "\u{2502}".to_owned(), s.base.as_str());
    assert(pieces_text(list@) =~= button_pieces(*c, *s));
    push_bar(&mut list, c, s);
    push_end(&mut list, c, s);
    list
}

/// Whether the cursor of the focused Pane shows: not while a menu is open or
/// the file tree has the focus; in copy mode always; else as the program asks.
pub fn active_cursor_visible(
    menu_open: bool,
    files_focused: bool,
    files_visible: bool,
    copying: bool,
    asked: Option<bool>,
) -> (visible: bool)
    ensures
        visible == (!menu_open && !(files_focused && files_visible) && (asked is None || copying
            || asked == Some(true))),
{
    if menu_open || (files_focused && files_visible) {
        return false;
    }
    match asked {
        Some(shown) => copying || shown,
        None => true,
    }
}

/// Whether keys go to a nested session: not while the overview or a menu takes
/// them.
pub fn active_nested_input(overview: bool, menu_open: bool, nested: Option<bool>) -> (active: bool)
    ensures
        active == (!overview && !menu_open && nested == Some(true)),
{
    if overview || menu_open {
        return false;
    }
    match nested {
        Some(on) => on,
        None => false,
    }
}

} // verus!
