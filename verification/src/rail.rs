//! The rows of the sidebars: Projects at the left; agents, web servers and
//! files at the right.
use crate::chrome_text::{fit_centered_button_label, format_change_count};
use crate::detection::AgentStatus;
use crate::observatory::DevServerEntry;
use crate::paint::{mark_text, marks_text, push_repeated, repeated, Mark, MarkText};
use crate::scope::SidebarScope;
use crate::text::{byte_len, push_decimal, push_text};
use crate::types::{PaneId, Rect};
use vstd::prelude::*;

verus! {

/// A place for a card, and which card it shows.
#[derive(Clone, Copy, Debug, PartialEq, Eq, Structural)]
pub struct CardSlot {
    pub item: usize,
    pub rect: Rect,
}

/// Which cards of a list are shown: `first-last/total`.
pub open spec fn shown_range(slots: Seq<CardSlot>, total: int) -> Seq<char> {
    let first = if slots.len() == 0 {
        0
    } else {
        slots[0].item as int
    };
    let last = if slots.len() == 0 {
        0
    } else {
        slots.last().item + 1
    };
    " "@ + crate::text::decimal((first + 1) as nat) + "-"@ + crate::text::decimal(last as nat)
        + "/"@ + crate::text::decimal(total as nat)
}

fn write_range(slots: &Vec<CardSlot>, total: usize) -> (text: String)
    requires
        total < usize::MAX,
        forall|i: int| 0 <= i < slots@.len() ==> (#[trigger] slots@[i]).item < usize::MAX,
    ensures
        text@ == shown_range(slots@, total as int),
{
    let mut first: usize = 0;
    let mut last: usize = 0;
    if slots.len() > 0 {
        assert(slots@[0].item < usize::MAX);
        assert(slots@[slots@.len() - 1].item < usize::MAX);
        first = slots[0].item;
        last = slots[slots.len() - 1].item + 1;
    }
    let mut text = " ".to_owned();
    push_decimal(&mut text, first as u64 + 1);
    push_text(&mut text, "-");
    push_decimal(&mut text, last as u64);
    push_text(&mut text, "/");
    push_decimal(&mut text, total as u64);
    text
}

/// The count behind a heading: the range that is shown, or the whole.
pub open spec fn count_text(slots: Seq<CardSlot>, total: int) -> Seq<char> {
    if total > slots.len() {
        shown_range(slots, total)
    } else {
        " "@ + crate::text::decimal(total as nat)
    }
}

fn write_count(slots: &Vec<CardSlot>, total: usize) -> (text: String)
    requires
        total < usize::MAX,
        forall|i: int| 0 <= i < slots@.len() ==> (#[trigger] slots@[i]).item < usize::MAX,
    ensures
        text@ == count_text(slots@, total as int),
{
    if total > slots.len() {
        write_range(slots, total)
    } else {
        let mut text = " ".to_owned();
        push_decimal(&mut text, total as u64);
        text
    }
}

/// One row more.
pub open spec fn row(row: int, text: Seq<char>, style: Seq<char>) -> MarkText {
    MarkText::Row { row: row as u16, text, style }
}

fn push_row(list: &mut Vec<Mark>, at: u16, text: String, style: &str)
    ensures
        marks_text(final(list)@) == marks_text(old(list)@).push(row(at as int, text@, style@)),
{
    let ghost before = list@;
    let ghost said = row(at as int, text@, style@);
    let mark = Mark::Row { row: at, text, style: style.to_owned() };
    assert(mark_text(mark) == said);
    list.push(mark);
    assert(marks_text(list@) =~= marks_text(before).push(said));
}

fn push_at(list: &mut Vec<Mark>, at: u16, col: u16, text: String, style: &str)
    ensures
        marks_text(final(list)@) == marks_text(old(list)@).push(
            MarkText::At { row: at, col, text: text@, style: style@ },
        ),
{
    let ghost before = list@;
    let ghost said = MarkText::At { row: at, col, text: text@, style: style@ };
    let mark = Mark::At { row: at, col, text, style: style.to_owned() };
    assert(mark_text(mark) == said);
    list.push(mark);
    assert(marks_text(list@) =~= marks_text(before).push(said));
}

fn push_more(list: &mut Vec<Mark>, text: String, style: &str)
    ensures
        marks_text(final(list)@) == marks_text(old(list)@).push(
            MarkText::More { text: text@, style: style@ },
        ),
{
    let ghost before = list@;
    let ghost said = MarkText::More { text: text@, style: style@ };
    let mark = Mark::More { text, style: style.to_owned() };
    assert(mark_text(mark) == said);
    list.push(mark);
    assert(marks_text(list@) =~= marks_text(before).push(said));
}

/// A row down, but not past the last.
pub open spec fn below(y: u16, n: int) -> int {
    crate::canvas::more(y as int, n)
}

/// What a Project's card shows.
#[derive(Debug)]
pub struct ProjectCard {
    pub name: String,
    pub active: bool,
    /// How many of its agents wait for a human.
    pub attention: usize,
    pub detail: String,
}

/// The styles of the Project list.
#[derive(Debug)]
pub struct ProjectStyles {
    pub base: String,
    pub muted: String,
    pub active: String,
    pub active_detail: String,
    pub heading: String,
    /// Half a cell in the color of the active card.
    pub half: String,
}

/// The name row of a card.
pub open spec fn project_title(card: ProjectCard) -> Seq<char> {
    let badge = if card.attention > 0 {
        " !"@ + crate::text::decimal(card.attention as nat)
    } else {
        Seq::empty()
    };
    " "@ + if card.active {
        "\u{25b8}"@
    } else {
        " "@
    } + " "@ + card.name@ + badge
}

fn write_project_title(card: &ProjectCard) -> (text: String)
    ensures
        text@ == project_title(*card),
{
    let mut text = " ".to_owned();
    if card.active {
        push_text(&mut text, "\u{25b8}");
    } else {
        push_text(&mut text, " ");
    }
    push_text(&mut text, " ");
    push_text(&mut text, card.name.as_str());
    let ghost head = text@;
    if card.attention > 0 {
        push_text(&mut text, " !");
        push_decimal(&mut text, card.attention as u64);
    }
    assert(text@ =~= project_title(*card));
    text
}

/// The row between two cards: half of it belongs to a neighbor that is active.
pub open spec fn padding(
    styles: ProjectStyles,
    inner: int,
    at: int,
    upper: bool,
    lower: bool,
) -> MarkText {
    if !upper && !lower {
        row(at, Seq::empty(), styles.base@)
    } else if upper && lower {
        row(at, Seq::empty(), styles.active@)
    } else if upper {
        row(at, repeated('\u{2584}', inner), styles.half@)
    } else {
        row(at, repeated('\u{2580}', inner), styles.half@)
    }
}

fn push_padding(
    list: &mut Vec<Mark>,
    styles: &ProjectStyles,
    inner: usize,
    at: u16,
    upper: bool,
    lower: bool,
)
    ensures
        marks_text(final(list)@) == marks_text(old(list)@).push(
            padding(*styles, inner as int, at as int, upper, lower),
        ),
{
    let mut text = String::new();
    if upper == lower {
        assert(text@ =~= Seq::empty());
        if upper {
            push_row(list, at, text, styles.active.as_str());
        } else {
            push_row(list, at, text, styles.base.as_str());
        }
    } else {
        if upper {
            push_repeated(&mut text, '\u{2584}', inner);
            assert(text@ =~= repeated('\u{2584}', inner as int));
        } else {
            push_repeated(&mut text, '\u{2580}', inner);
            assert(text@ =~= repeated('\u{2580}', inner as int));
        }
        push_row(list, at, text, styles.half.as_str());
    }
}

/// The card in a slot is the active Project's.
pub open spec fn slot_active(cards: Seq<ProjectCard>, slots: Seq<CardSlot>, i: int) -> bool {
    0 <= i < slots.len() && slots[i].item < cards.len() && cards[slots[i].item as int].active
}

/// The marks of the first `n` Project cards.
pub open spec fn project_card_marks(
    cards: Seq<ProjectCard>,
    slots: Seq<CardSlot>,
    styles: ProjectStyles,
    inner: int,
    n: nat,
) -> Seq<MarkText>
    decreases n,
{
    if n == 0 {
        Seq::empty()
    } else {
        let rest = project_card_marks(cards, slots, styles, inner, (n - 1) as nat);
        let slot = slots[n - 1];
        if slot.item >= cards.len() {
            rest
        } else {
            let card = cards[slot.item as int];
            rest.push(
                row(
                    slot.rect.y as int,
                    project_title(card),
                    if card.active {
                        styles.active@
                    } else {
                        styles.base@
                    },
                ),
            ).push(
                row(
                    below(slot.rect.y, 1),
                    "   "@ + card.detail@,
                    if card.active {
                        styles.active_detail@
                    } else {
                        styles.muted@
                    },
                ),
            ).push(
                padding(
                    styles,
                    inner,
                    below(slot.rect.y, 2),
                    card.active,
                    slot_active(cards, slots, n as int),
                ),
            )
        }
    }
}

/// The marks of the Project list.
pub open spec fn project_marks(
    cards: Seq<ProjectCard>,
    slots: Seq<CardSlot>,
    styles: ProjectStyles,
    area: Rect,
    inner: int,
) -> Seq<MarkText> {
    let range = if cards.len() > slots.len() {
        shown_range(slots, cards.len() as int)
    } else {
        Seq::empty()
    };
    let heading = seq![row(below(area.y, 1), " PROJECTS"@ + range, styles.heading@)];
    let first = if slots.len() > 0 {
        seq![
            padding(
                styles,
                inner,
                crate::canvas::less(slots[0].rect.y as int, 1),
                false,
                slot_active(cards, slots, 0),
            ),
        ]
    } else {
        Seq::empty()
    };
    heading + first + project_card_marks(cards, slots, styles, inner, slots.len())
}

fn is_slot_active(cards: &Vec<ProjectCard>, slots: &Vec<CardSlot>, i: usize) -> (active: bool)
    ensures
        active == slot_active(cards@, slots@, i as int),
{
    i < slots.len() && slots[i].item < cards.len() && cards[slots[i].item].active
}

/// The marks of the Project list: a heading, and a card of three rows for each
/// slot.
pub fn mark_projects(
    cards: &Vec<ProjectCard>,
    slots: &Vec<CardSlot>,
    styles: &ProjectStyles,
    area: Rect,
    inner: usize,
) -> (list: Vec<Mark>)
    requires
        cards@.len() < usize::MAX,
        forall|i: int| 0 <= i < slots@.len() ==> (#[trigger] slots@[i]).item < usize::MAX,
    ensures
        marks_text(list@) == project_marks(cards@, slots@, *styles, area, inner as int),
{
    let mut list: Vec<Mark> = Vec::new();
    let mut heading = " PROJECTS".to_owned();
    if cards.len() > slots.len() {
        push_text(&mut heading, write_range(slots, cards.len()).as_str());
    } else {
        assert(heading@ =~= " PROJECTS"@ + Seq::<char>::empty());
    }
    push_row(&mut list, area.y.saturating_add(1), heading, styles.heading.as_str());
    if slots.len() > 0 {
        push_padding(
            &mut list,
            styles,
            inner,
            slots[0].rect.y.saturating_sub(1),
            false,
            is_slot_active(cards, slots, 0),
        );
    }
    let ghost head = marks_text(list@);
    let mut i: usize = 0;
    assert(marks_text(list@) =~= head + project_card_marks(
        cards@,
        slots@,
        *styles,
        inner as int,
        0,
    ));
    while i < slots.len()
        invariant
            i <= slots@.len(),
            marks_text(list@) == head + project_card_marks(
                cards@,
                slots@,
                *styles,
                inner as int,
                i as nat,
            ),
        decreases slots@.len() - i,
    {
        let slot = slots[i];
        if slot.item < cards.len() {
            let card = &cards[slot.item];
            let name_style = if card.active {
                styles.active.as_str()
            } else {
                styles.base.as_str()
            };
            push_row(&mut list, slot.rect.y, write_project_title(card), name_style);
            let mut detail = "   ".to_owned();
            push_text(&mut detail, card.detail.as_str());
            let detail_style = if card.active {
                styles.active_detail.as_str()
            } else {
                styles.muted.as_str()
            };
            push_row(&mut list, slot.rect.y.saturating_add(1), detail, detail_style);
            push_padding(
                &mut list,
                styles,
                inner,
                slot.rect.y.saturating_add(2),
                card.active,
                is_slot_active(cards, slots, i + 1),
            );
        }
        i += 1;
        assert(marks_text(list@) =~= head + project_card_marks(
            cards@,
            slots@,
            *styles,
            inner as int,
            i as nat,
        ));
    }
    assert(marks_text(list@) =~= project_marks(cards@, slots@, *styles, area, inner as int));
    list
}

/// The glyph of an agent's status.
pub open spec fn status_glyph(status: AgentStatus) -> Seq<char> {
    match status {
        AgentStatus::Permission | AgentStatus::Question => "!"@,
        AgentStatus::Working | AgentStatus::Tool | AgentStatus::Starting => "\u{25cf}"@,
        AgentStatus::Idle => "\u{2713}"@,
        AgentStatus::Error => "\u{d7}"@,
        AgentStatus::Exited => "\u{25cb}"@,
        AgentStatus::Unknown => "?"@,
    }
}

fn glyph_of(status: AgentStatus) -> (glyph: &'static str)
    ensures
        glyph@ == status_glyph(status),
{
    match status {
        AgentStatus::Permission | AgentStatus::Question => "!",
        AgentStatus::Working | AgentStatus::Tool | AgentStatus::Starting => "\u{25cf}",
        AgentStatus::Idle => "\u{2713}",
        AgentStatus::Error => "\u{d7}",
        AgentStatus::Exited => "\u{25cb}",
        AgentStatus::Unknown => "?",
    }
}

/// What an agent's card shows.
#[derive(Debug)]
pub struct AgentCard {
    pub name: String,
    pub status: AgentStatus,
    /// The status in words.
    pub label: String,
    /// The agent has the focus.
    pub active: bool,
    pub style: String,
    /// The branch of the worktree that it works in.
    pub branch: Option<String>,
    /// The Project that it works in.
    pub project: Option<String>,
    /// The run and role that it serves.
    pub run: Option<String>,
    pub note: Option<String>,
}

/// A further fact, set off by a dot.
pub open spec fn dotted(sign: Seq<char>, fact: Option<String>) -> Seq<char> {
    match fact {
        Some(text) => " \u{b7} "@ + sign + text@,
        None => Seq::empty(),
    }
}

fn push_dotted(out: &mut String, sign: &str, fact: &Option<String>)
    ensures
        final(out)@ == old(out)@ + dotted(sign@, *fact),
{
    let ghost head = out@;
    match fact {
        Some(text) => {
            push_text(out, " \u{b7} ");
            push_text(out, sign);
            push_text(out, text.as_str());
        },
        None => {},
    }
    assert(out@ =~= head + dotted(sign@, *fact));
}

/// The name row of an agent's card.
pub open spec fn agent_title(card: AgentCard) -> Seq<char> {
    " "@ + if card.active {
        "\u{25b8}"@
    } else {
        " "@
    } + " "@ + status_glyph(card.status) + " "@ + card.name@
}

/// The detail row of an agent's card. The Project is named only in a list of
/// the whole Workspace.
pub open spec fn agent_detail(card: AgentCard, scope: SidebarScope) -> Seq<char> {
    let project = if scope == SidebarScope::Workspace {
        dotted(Seq::empty(), card.project)
    } else {
        Seq::empty()
    };
    "    "@ + card.label@ + dotted("\u{2387} "@, card.branch) + project + dotted(
        Seq::empty(),
        card.run,
    ) + dotted(Seq::empty(), card.note)
}

fn write_agent_title(card: &AgentCard) -> (text: String)
    ensures
        text@ == agent_title(*card),
{
    let mut text = " ".to_owned();
    if card.active {
        push_text(&mut text, "\u{25b8}");
    } else {
        push_text(&mut text, " ");
    }
    push_text(&mut text, " ");
    push_text(&mut text, glyph_of(card.status));
    push_text(&mut text, " ");
    push_text(&mut text, card.name.as_str());
    text
}

fn write_agent_detail(card: &AgentCard, scope: SidebarScope) -> (text: String)
    ensures
        text@ == agent_detail(*card, scope),
{
    proof {
        reveal_strlit("");
        assert(""@ =~= Seq::empty());
    }
    let mut text = "    ".to_owned();
    push_text(&mut text, card.label.as_str());
    push_dotted(&mut text, "\u{2387} ", &card.branch);
    let ghost head = text@;
    if scope == SidebarScope::Workspace {
        push_dotted(&mut text, "", &card.project);
    } else {
        assert(text@ =~= head + Seq::<char>::empty());
    }
    push_dotted(&mut text, "", &card.run);
    push_dotted(&mut text, "", &card.note);
    text
}

/// The styles of the lists at the right.
#[derive(Debug)]
pub struct ListStyles {
    pub base: String,
    pub muted: String,
    pub heading: String,
    pub border: String,
    /// The button that switches the scope.
    pub scope: String,
    pub live: String,
    pub button: String,
    pub selection: String,
    pub added: String,
    pub removed: String,
    pub untracked: String,
}

/// The heading of a list, and the button that switches its scope.
pub open spec fn heading_marks(
    title: Seq<char>,
    count: Seq<char>,
    styles: ListStyles,
    area: Rect,
    scope_label: Seq<char>,
    scope_x: u16,
) -> Seq<MarkText> {
    seq![
        row(below(area.y, 1), title + count, styles.heading@),
        MarkText::At {
            row: below(area.y, 1) as u16,
            col: scope_x,
            text: scope_label,
            style: styles.scope@,
        },
    ]
}

/// The marks of the first `n` agent cards.
pub open spec fn agent_card_marks(
    cards: Seq<AgentCard>,
    slots: Seq<CardSlot>,
    styles: ListStyles,
    scope: SidebarScope,
    n: nat,
) -> Seq<MarkText>
    decreases n,
{
    if n == 0 {
        Seq::empty()
    } else {
        let rest = agent_card_marks(cards, slots, styles, scope, (n - 1) as nat);
        let slot = slots[n - 1];
        if slot.item >= cards.len() {
            rest
        } else {
            let card = cards[slot.item as int];
            rest.push(row(slot.rect.y as int, agent_title(card), card.style@)).push(
                row(below(slot.rect.y, 1), agent_detail(card, scope), styles.muted@),
            )
        }
    }
}

/// A button with its label.
#[derive(Debug)]
pub struct ActionSlot {
    pub rect: Rect,
    pub label: String,
}

/// A label centered on a button.
pub open spec fn button_text(label: Seq<char>, width: int) -> Seq<char> {
    crate::chrome_text::center_or_cut(
        label,
        crate::chrome_text::cell_width(label) as int,
        crate::chrome_text::grapheme_clusters(label),
        crate::chrome_text::cluster_widths(label),
        width,
        true,
    )
}

/// The marks of the first `n` buttons.
pub open spec fn action_marks(actions: Seq<ActionSlot>, style: Seq<char>, n: nat) -> Seq<MarkText>
    decreases n,
{
    if n == 0 {
        Seq::empty()
    } else {
        let a = actions[n - 1];
        action_marks(actions, style, (n - 1) as nat).push(
            MarkText::At {
                row: a.rect.y,
                col: a.rect.x,
                text: button_text(a.label@, a.rect.w as int),
                style,
            },
        )
    }
}

/// The marks of the list of agents.
pub open spec fn agent_marks(
    cards: Seq<AgentCard>,
    slots: Seq<CardSlot>,
    styles: ListStyles,
    scope: SidebarScope,
    scope_label: Seq<char>,
    scope_x: u16,
    actions: Seq<ActionSlot>,
    area: Rect,
    inner: int,
) -> Seq<MarkText> {
    let top = heading_marks(
        " AGENTS"@,
        count_text(slots, cards.len() as int),
        styles,
        area,
        scope_label,
        scope_x,
    ) + agent_card_marks(cards, slots, styles, scope, slots.len());
    if area.h >= 2 {
        top.push(row(area.y + area.h - 2, repeated('\u{2500}', inner), styles.border@))
            + action_marks(actions, styles.button@, actions.len())
    } else {
        top
    }
}

fn push_heading(
    list: &mut Vec<Mark>,
    title: &str,
    count: String,
    styles: &ListStyles,
    area: Rect,
    scope_label: &str,
    scope_x: u16,
)
    ensures
        marks_text(final(list)@) == marks_text(old(list)@) + heading_marks(
            title@,
            count@,
            *styles,
            area,
            scope_label@,
            scope_x,
        ),
{
    let ghost head = marks_text(list@);
    let mut heading = title.to_owned();
    push_text(&mut heading, count.as_str());
    push_row(list, area.y.saturating_add(1), heading, styles.heading.as_str());
    push_at(
        list,
        area.y.saturating_add(1),
        scope_x,
        scope_label.to_owned(),
        styles.scope.as_str(),
    );
    assert(marks_text(list@) =~= head + heading_marks(
        title@,
        count@,
        *styles,
        area,
        scope_label@,
        scope_x,
    ));
}

/// The marks of the list of agents: a heading, a card of two rows for each
/// slot, and the buttons below.
pub fn mark_agents(
    cards: &Vec<AgentCard>,
    slots: &Vec<CardSlot>,
    styles: &ListStyles,
    scope: SidebarScope,
    scope_label: &str,
    scope_x: u16,
    actions: &Vec<ActionSlot>,
    area: Rect,
    inner: usize,
) -> (list: Vec<Mark>)
    requires
        area.fits(),
        cards@.len() < usize::MAX,
        forall|i: int| 0 <= i < slots@.len() ==> (#[trigger] slots@[i]).item < usize::MAX,
    ensures
        marks_text(list@) == agent_marks(
            cards@,
            slots@,
            *styles,
            scope,
            scope_label@,
            scope_x,
            actions@,
            area,
            inner as int,
        ),
{
    let mut list: Vec<Mark> = Vec::new();
    assert(marks_text(list@) =~= Seq::empty());
    push_heading(
        &mut list,
        " AGENTS",
        write_count(slots, cards.len()),
        styles,
        area,
        scope_label,
        scope_x,
    );
    let ghost head = marks_text(list@);
    let mut i: usize = 0;
    assert(marks_text(list@) =~= head + agent_card_marks(cards@, slots@, *styles, scope, 0));
    while i < slots.len()
        invariant
            i <= slots@.len(),
            marks_text(list@) == head + agent_card_marks(cards@, slots@, *styles, scope, i as nat),
        decreases slots@.len() - i,
    {
        let slot = slots[i];
        if slot.item < cards.len() {
            let card = &cards[slot.item];
            push_row(&mut list, slot.rect.y, write_agent_title(card), card.style.as_str());
            push_row(
                &mut list,
                slot.rect.y.saturating_add(1),
                write_agent_detail(card, scope),
                styles.muted.as_str(),
            );
        }
        i += 1;
        assert(marks_text(list@) =~= head + agent_card_marks(
            cards@,
            slots@,
            *styles,
            scope,
            i as nat,
        ));
    }
    if area.h >= 2 {
        let mut line = String::new();
        push_repeated(&mut line, '\u{2500}', inner);
        assert(line@ =~= repeated('\u{2500}', inner as int));
        push_row(&mut list, area.y + (area.h - 2), line, styles.border.as_str());
        let ghost top = marks_text(list@);
        let mut k: usize = 0;
        assert(marks_text(list@) =~= top + action_marks(actions@, styles.button@, 0));
        while k < actions.len()
            invariant
                k <= actions@.len(),
                marks_text(list@) == top + action_marks(actions@, styles.button@, k as nat),
            decreases actions@.len() - k,
        {
            let rect = actions[k].rect;
            let label = fit_centered_button_label(actions[k].label.as_str(), rect.w as usize);
            push_at(&mut list, rect.y, rect.x, label, styles.button.as_str());
            k += 1;
            assert(marks_text(list@) =~= top + action_marks(actions@, styles.button@, k as nat));
        }
    }
    list
}

/// The marks of the first `n` web servers.
pub open spec fn server_card_marks(
    servers: Seq<DevServerEntry>,
    slots: Seq<CardSlot>,
    styles: ListStyles,
    scope: SidebarScope,
    n: nat,
) -> Seq<MarkText>
    decreases n,
{
    if n == 0 {
        Seq::empty()
    } else {
        let rest = server_card_marks(servers, slots, styles, scope, (n - 1) as nat);
        let slot = slots[n - 1];
        if slot.item >= servers.len() {
            rest
        } else {
            let s = servers[slot.item as int];
            let project = if scope == SidebarScope::Workspace {
                s.project_name@ + " \u{b7} "@
            } else {
                Seq::empty()
            };
            rest.push(
                row(
                    slot.rect.y as int,
                    " \u{25c6} "@ + s.label@ + " :"@ + crate::text::decimal(s.port as nat),
                    styles.live@,
                ),
            ).push(row(below(slot.rect.y, 1), "   "@ + project + s.url@, styles.muted@))
        }
    }
}

/// The marks of the list of web servers: a heading, and two rows for each slot.
pub fn mark_servers(
    servers: &Vec<DevServerEntry>,
    slots: &Vec<CardSlot>,
    styles: &ListStyles,
    scope: SidebarScope,
    scope_label: &str,
    scope_x: u16,
    area: Rect,
) -> (list: Vec<Mark>)
    requires
        servers@.len() < usize::MAX,
        forall|i: int| 0 <= i < slots@.len() ==> (#[trigger] slots@[i]).item < usize::MAX,
    ensures
        marks_text(list@) == heading_marks(
            " WEB SERVERS"@,
            count_text(slots@, servers@.len() as int),
            *styles,
            area,
            scope_label@,
            scope_x,
        ) + server_card_marks(servers@, slots@, *styles, scope, slots@.len()),
{
    let mut list: Vec<Mark> = Vec::new();
    assert(marks_text(list@) =~= Seq::empty());
    push_heading(
        &mut list,
        " WEB SERVERS",
        write_count(slots, servers.len()),
        styles,
        area,
        scope_label,
        scope_x,
    );
    let ghost head = marks_text(list@);
    let mut i: usize = 0;
    assert(marks_text(list@) =~= head + server_card_marks(servers@, slots@, *styles, scope, 0));
    while i < slots.len()
        invariant
            i <= slots@.len(),
            marks_text(list@) == head + server_card_marks(
                servers@,
                slots@,
                *styles,
                scope,
                i as nat,
            ),
        decreases slots@.len() - i,
    {
        let slot = slots[i];
        if slot.item < servers.len() {
            let s = &servers[slot.item];
            let mut title = " \u{25c6} ".to_owned();
            push_text(&mut title, s.label.as_str());
            push_text(&mut title, " :");
            push_decimal(&mut title, s.port as u64);
            push_row(&mut list, slot.rect.y, title, styles.live.as_str());
            let mut detail = "   ".to_owned();
            let ghost start = detail@;
            if scope == SidebarScope::Workspace {
                push_text(&mut detail, s.project_name.as_str());
                push_text(&mut detail, " \u{b7} ");
                assert(detail@ =~= start + (s.project_name@ + " \u{b7} "@));
            } else {
                assert(detail@ =~= start + Seq::<char>::empty());
            }
            push_text(&mut detail, s.url.as_str());
            push_row(&mut list, slot.rect.y.saturating_add(1), detail, styles.muted.as_str());
        }
        i += 1;
        assert(marks_text(list@) =~= head + server_card_marks(
            servers@,
            slots@,
            *styles,
            scope,
            i as nat,
        ));
    }
    list
}

/// How the files of a Project changed.
#[derive(Clone, Copy, Debug, PartialEq, Eq, Structural)]
pub struct GitStats {
    pub insertions: u32,
    pub deletions: u32,
    pub untracked: u32,
}

/// The text of one count.
pub open spec fn change_text(sign: Seq<char>, count: u32) -> Seq<char> {
    " "@ + sign + crate::chrome_text::change_count_text(count as int)
}

/// The counts that fit behind `used` bytes: one without changes is left out,
/// and the first that does not fit ends the row.
pub open spec fn change_marks(
    counts: Seq<(u32, Seq<char>, Seq<char>)>,
    used: int,
    inner: int,
) -> Seq<MarkText>
    decreases counts.len(),
{
    if counts.len() == 0 {
        Seq::empty()
    } else {
        let (count, sign, style) = counts[0];
        let text = change_text(sign, count);
        let bytes = crate::text::utf8_len(text);
        if count == 0 {
            change_marks(counts.drop_first(), used, inner)
        } else if used + bytes > inner {
            Seq::empty()
        } else {
            seq![MarkText::More { text, style }] + change_marks(
                counts.drop_first(),
                used + bytes,
                inner,
            )
        }
    }
}

fn push_change(
    list: &mut Vec<Mark>,
    sign: &str,
    count: u32,
    style: &str,
    used: usize,
    inner: usize,
) -> (next: Option<usize>)
    ensures
        ({
            let text = change_text(sign@, count);
            let bytes = crate::text::utf8_len(text);
            if count == 0 {
                next == Some(used) && marks_text(final(list)@) == marks_text(old(list)@)
            } else if used + bytes > inner {
                next is None && marks_text(final(list)@) == marks_text(old(list)@)
            } else {
                &&& next matches Some(n) && n == used + bytes
                &&& marks_text(final(list)@) == marks_text(old(list)@).push(
                    MarkText::More { text, style: style@ },
                )
            }
        }),
{
    if count == 0 {
        return Some(used);
    }
    let mut text = " ".to_owned();
    push_text(&mut text, sign);
    push_text(&mut text, format_change_count(count).as_str());
    let bytes: usize = byte_len(text.as_str());
    if used > inner || bytes > inner - used {
        return None;
    }
    push_more(list, text, style);
    Some(used + bytes)
}

/// The three counts with their signs and styles.
pub open spec fn change_counts(stats: GitStats, styles: ListStyles) -> Seq<
    (u32, Seq<char>, Seq<char>),
> {
    seq![
        (stats.insertions, "+"@, styles.added@),
        (stats.deletions, "-"@, styles.removed@),
        (stats.untracked, "?"@, styles.untracked@),
    ]
}

/// Append the counts of a Project's changes behind `used` bytes.
pub fn mark_changes(list: &mut Vec<Mark>, stats: GitStats, styles: &ListStyles, used: usize, inner: usize)
    ensures
        marks_text(final(list)@) == marks_text(old(list)@) + change_marks(
            change_counts(stats, *styles),
            used as int,
            inner as int,
        ),
{
    let ghost head = marks_text(list@);
    let ghost counts = change_counts(stats, *styles);
    proof {
        reveal_with_fuel(change_marks, 4);
        assert(counts.drop_first() =~= seq![counts[1], counts[2]]);
        assert(counts.drop_first().drop_first() =~= seq![counts[2]]);
        assert(counts.drop_first().drop_first().drop_first() =~= Seq::empty());
    }
    let first = push_change(list, "+", stats.insertions, styles.added.as_str(), used, inner);
    if let Some(used) = first {
        let second = push_change(list, "-", stats.deletions, styles.removed.as_str(), used, inner);
        if let Some(used) = second {
            push_change(list, "?", stats.untracked, styles.untracked.as_str(), used, inner);
        }
    }
    assert(marks_text(list@) =~= head + change_marks(counts, used as int, inner as int));
}

/// One entry of the file tree.
#[derive(Debug)]
pub struct FileRow {
    pub name: String,
    pub depth: usize,
    pub is_dir: bool,
    pub expanded: bool,
    pub is_symlink: bool,
}

/// The row of an entry: indented at most eight steps.
pub open spec fn file_text(f: FileRow) -> Seq<char> {
    let steps = if f.depth <= 8 {
        f.depth as int
    } else {
        8
    };
    let glyph = if f.is_dir {
        if f.expanded {
            "\u{25be}"@
        } else {
            "\u{25b8}"@
        }
    } else if f.is_symlink {
        "@"@
    } else {
        " "@
    };
    " "@ + repeated(' ', 2 * steps) + glyph + " "@ + f.name@ + if f.is_dir {
        "/"@
    } else {
        Seq::empty()
    }
}

/// Write the row of an entry.
pub fn write_file_row(f: &FileRow) -> (text: String)
    ensures
        text@ == file_text(*f),
{
    let steps: usize = if f.depth <= 8 {
        f.depth
    } else {
        8
    };
    let mut text = " ".to_owned();
    push_repeated(&mut text, ' ', 2 * steps);
    let glyph = if f.is_dir {
        if f.expanded {
            "\u{25be}"
        } else {
            "\u{25b8}"
        }
    } else if f.is_symlink {
        "@"
    } else {
        " "
    };
    push_text(&mut text, glyph);
    push_text(&mut text, " ");
    push_text(&mut text, f.name.as_str());
    let ghost head = text@;
    if f.is_dir {
        push_text(&mut text, "/");
    } else {
        assert(text@ =~= head + Seq::<char>::empty());
    }
    text
}

/// The marks of the first `n` visible entries of the file tree.
pub open spec fn file_row_marks(
    files: Seq<FileRow>,
    first: int,
    selected: int,
    start: int,
    styles: ListStyles,
    n: nat,
) -> Seq<MarkText>
    decreases n,
{
    if n == 0 {
        Seq::empty()
    } else {
        let rest = file_row_marks(files, first, selected, start, styles, (n - 1) as nat);
        let at = first + n - 1;
        rest.push(
            row(
                start + n - 1,
                file_text(files[at]),
                if at == selected {
                    styles.selection@
                } else {
                    styles.base@
                },
            ),
        )
    }
}

/// Append the visible entries of the file tree: at most `capacity`, from
/// `first` on.
pub fn mark_file_rows(
    list: &mut Vec<Mark>,
    files: &Vec<FileRow>,
    first: usize,
    selected: usize,
    start: u16,
    capacity: usize,
    styles: &ListStyles,
)
    requires
        start + capacity <= u16::MAX,
    ensures
        ({
            let left = crate::canvas::less(files@.len() as int, first as int);
            let n = if left <= capacity {
                left
            } else {
                capacity as int
            };
            marks_text(final(list)@) == marks_text(old(list)@) + file_row_marks(
                files@,
                first as int,
                selected as int,
                start as int,
                *styles,
                n as nat,
            )
        }),
{
    let ghost head = marks_text(list@);
    let left: usize = if files.len() <= first {
        0
    } else {
        files.len() - first
    };
    let n: usize = if left <= capacity {
        left
    } else {
        capacity
    };
    let mut i: usize = 0;
    assert(marks_text(list@) =~= head + file_row_marks(
        files@,
        first as int,
        selected as int,
        start as int,
        *styles,
        0,
    ));
    while i < n
        invariant
            i <= n <= capacity,
            n == 0 || first + n <= files@.len(),
            start + capacity <= u16::MAX,
            marks_text(list@) == head + file_row_marks(
                files@,
                first as int,
                selected as int,
                start as int,
                *styles,
                i as nat,
            ),
        decreases n - i,
    {
        assert(files.len() <= usize::MAX);
        let at: usize = first + i;
        let style = if at == selected {
            styles.selection.as_str()
        } else {
            styles.base.as_str()
        };
        push_row(list, start + i as u16, write_file_row(&files[at]), style);
        i += 1;
        assert(marks_text(list@) =~= head + file_row_marks(
            files@,
            first as int,
            selected as int,
            start as int,
            *styles,
            i as nat,
        ));
    }
}

/// The rows below the file tree: a line, a status, and the keys.
pub open spec fn file_footer(
    area: Rect,
    status: Seq<char>,
    styles: ListStyles,
    inner: int,
) -> Seq<MarkText> {
    if area.h >= 3 {
        seq![
            row(area.y + area.h - 3, repeated('\u{2500}', inner), styles.border@),
            row(area.y + area.h - 2, status, styles.muted@),
            row(area.y + area.h - 1, " n:new N:dir R:rename d:delete"@, styles.muted@),
        ]
    } else {
        Seq::empty()
    }
}

/// Append the rows below the file tree.
pub fn mark_file_footer(
    list: &mut Vec<Mark>,
    area: Rect,
    status: String,
    styles: &ListStyles,
    inner: usize,
)
    requires
        area.fits(),
    ensures
        marks_text(final(list)@) == marks_text(old(list)@) + file_footer(
            area,
            status@,
            *styles,
            inner as int,
        ),
{
    let ghost head = marks_text(list@);
    let ghost said = status@;
    if area.h >= 3 {
        let mut line = String::new();
        push_repeated(&mut line, '\u{2500}', inner);
        assert(line@ =~= repeated('\u{2500}', inner as int));
        push_row(list, area.y + (area.h - 3), line, styles.border.as_str());
        push_row(list, area.y + (area.h - 2), status, styles.muted.as_str());
        push_row(
            list,
            area.y + (area.h - 1),
            " n:new N:dir R:rename d:delete".to_owned(),
            styles.muted.as_str(),
        );
    }
    assert(marks_text(list@) =~= head + file_footer(area, said, *styles, inner as int));
}

/// An agent and what its place in the list goes by.
#[derive(Clone, Copy, Debug, PartialEq, Eq, Structural)]
pub struct AgentPlace {
    pub pane: PaneId,
    /// The position of its Project.
    pub project: usize,
    pub started_at: u64,
}

/// One agent stands before another: by Project, by age, by Pane.
pub open spec fn place_before(a: AgentPlace, b: AgentPlace) -> bool {
    a.project < b.project || (a.project == b.project && (a.started_at < b.started_at || (
    a.started_at == b.started_at && a.pane.0 <= b.pane.0)))
}

fn is_placed_before(a: &AgentPlace, b: &AgentPlace) -> (before: bool)
    ensures
        before == place_before(*a, *b),
{
    a.project < b.project || (a.project == b.project && (a.started_at < b.started_at || (
    a.started_at == b.started_at && a.pane.0 <= b.pane.0)))
}

/// Put the agents in order.
pub fn order_agents(list: &Vec<AgentPlace>) -> (out: Vec<AgentPlace>)
    ensures
        out@.to_multiset() == list@.to_multiset(),
        forall|i: int, j: int|
            0 <= i < j < out@.len() ==> place_before(#[trigger] out@[i], #[trigger] out@[j]),
{
    broadcast use vstd::seq_lib::group_to_multiset_ensures;

    let mut out: Vec<AgentPlace> = Vec::new();
    let mut i: usize = 0;
    assert(list@.take(0) =~= out@);
    while i < list.len()
        invariant
            i <= list@.len(),
            out@.to_multiset() == list@.take(i as int).to_multiset(),
            forall|a: int, b: int|
                0 <= a < b < out@.len() ==> place_before(#[trigger] out@[a], #[trigger] out@[b]),
        decreases list@.len() - i,
    {
        let one = list[i];
        let ghost before = out@;
        let mut k: usize = 0;
        while k < out.len() && is_placed_before(&out[k], &one)
            invariant
                k <= out@.len(),
                out@ == before,
                forall|a: int| 0 <= a < k ==> place_before(#[trigger] before[a], one),
            decreases out@.len() - k,
        {
            k += 1;
        }
        out.insert(k, one);
        proof {
            broadcast use vstd::seq_lib::group_to_multiset_ensures;

            let after = out@;
            assert(list@.take(i + 1) =~= list@.take(i as int).push(one));
            assert(after.to_multiset() =~= before.to_multiset().insert(one));
            assert forall|a: int, b: int| 0 <= a < b < after.len() implies place_before(
                #[trigger] after[a],
                #[trigger] after[b],
            ) by {
                let x = if a < k {
                    a
                } else {
                    a - 1
                };
                let y = if b < k {
                    b
                } else {
                    b - 1
                };
                if a == k {
                    assert(after[b] == before[y]);
                    if y > k {
                        assert(place_before(before[k as int], before[y]));
                    }
                } else if b == k {
                    assert(after[a] == before[x]);
                } else {
                    assert(after[a] == before[x] && after[b] == before[y]);
                }
            }
        }
        i += 1;
    }
    assert(list@.take(i as int) =~= list@);
    out
}

/// What stands for a Project below its name: its worktree, else the first of
/// its notes, else its path.
pub fn project_detail(worktree: Option<String>, note: Option<String>, path: String) -> (detail:
    String)
    ensures
        detail == match (worktree, note) {
            (Some(text), _) => text,
            (None, Some(text)) => text,
            (None, None) => path,
        },
{
    match (worktree, note) {
        (Some(text), _) => text,
        (None, Some(text)) => text,
        (None, None) => path,
    }
}

} // verus!
