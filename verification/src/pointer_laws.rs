//! What the mouse can rely on: which part of the screen an event belongs to,
//! what a program hears of it, and what it changes.
use crate::commands::{Command, ObservatoryTab, SplitAxis, ViewState};
use crate::hierarchy::{has_tab, project_at, tabs_of, WorkspaceState};
use crate::tabs::lemma_tabs_among;
use crate::layout::{Divider, LayoutNode, PaneRect};
use crate::menu::{
    for_files, menu_command, menu_done, menu_event, target_step, ContextAction, ContextTarget,
    FileStep, MenuMouse, MenuSpot, MenuStep,
};
use crate::mouse::{
    armed, button_code, byte_coordinate, divider_distance, dragged, finished, forwarded, link_cell,
    mouse_report, nearest, owns_mouse, same_line, sgr_report, wanted, wheeled, FinishStep,
    MouseKind, MouseMode, MouseSel, PaneMouse,
};
use crate::pointer::{
    divider_hit, pane_hit, rect_hit, row_hit, scrolled, slot_hit, step_over, tab_hit, MouseStep,
    PaneStep, PointerView,
};
use crate::pointing::{pane_act, pane_selection, step_act, PaneAct, PaneFacts};
use crate::projects::lemma_tab_showing;
use crate::rail::CardSlot;
use crate::status::ObservatorySlot;
use crate::text::{decimal, lemma_decimal_is_the_number, number_of};
use crate::types::{PaneId, Rect, Token};
use vstd::prelude::*;

verus! {

/// A program hears of the mouse what it asked for: nothing with reports off,
/// presses alone in the oldest mode, motion with a button held only where it
/// asked for drags, motion without one only where it asked for everything.
pub proof fn lemma_program_hears_what_it_asked_for(mode: MouseMode, kind: MouseKind, right: bool)
    ensures
        mode is Off ==> !wanted(mode, kind, right),
        mode is X10 ==> (wanted(mode, kind, right) <==> kind is Click),
        kind is Hover ==> (wanted(mode, kind, right) <==> mode is Any),
        kind is Drag ==> (wanted(mode, kind, right) <==> mode is Button || mode is Any),
        kind is RightClick ==> (wanted(mode, kind, right) <==> right && !(mode is Off)
            && !(mode is X10)),
        kind is Release || kind is WheelUp || kind is WheelDown ==> (wanted(mode, kind, right)
            <==> !(mode is Off) && !(mode is X10)),
        kind is Click ==> (wanted(mode, kind, right) <==> !(mode is Off)),
{
}

/// Every event has a number of its own but for a press and its release, which
/// share the button and differ in how they end.
pub proof fn lemma_events_are_told_apart(a: MouseKind, b: MouseKind)
    ensures
        a != b ==> button_code(a) != button_code(b),
        button_code(a).1 <==> !(a is Release),
        a is Click || a is Release ==> button_code(a).0 == 0,
        a is RightClick ==> button_code(a).0 == 2,
        a is Drag ==> button_code(a).0 == 32,
        a is Hover ==> button_code(a).0 == 35,
        a is WheelUp ==> button_code(a).0 == 64,
        a is WheelDown ==> button_code(a).0 == 65,
{
}

/// A report in bytes: the introducer, the button, the column and the row, each
/// raised by a blank; a release names no button and a place too far off is held
/// at the largest byte.
pub proof fn lemma_report_in_bytes(btn: int, press: bool, px: int, py: int)
    requires
        0 <= btn <= 223,
        0 <= px,
        0 <= py,
    ensures
        ({
            let bytes = mouse_report(false, btn, press, px, py);
            &&& bytes.len() == 6
            &&& bytes[0] == 0x1b && bytes[1] == 0x5b && bytes[2] == 0x4d
            &&& press ==> bytes[3] == btn + 32
            &&& !press ==> bytes[3] == 35
            &&& px <= 223 ==> bytes[4] == px + 32
            &&& px > 223 ==> bytes[4] == 255
            &&& py <= 223 ==> bytes[5] == py + 32
            &&& py > 223 ==> bytes[5] == 255
        }),
        forall|a: int, b: int|
            a <= b ==> #[trigger] byte_coordinate(a) <= #[trigger] byte_coordinate(b),
{
}

/// A report in numbers: the button, the column and the row in this order, and
/// an end that tells a press from a release.
pub proof fn lemma_report_in_numbers(btn: nat, press: bool, px: nat, py: nat) -> (parts: (
    Seq<char>,
    Seq<char>,
    Seq<char>,
))
    ensures
        number_of(parts.0) == btn,
        number_of(parts.1) == px,
        number_of(parts.2) == py,
        sgr_report(btn as int, press, px as int, py as int) == "\u{1b}[<"@ + parts.0 + ";"@
            + parts.1 + ";"@ + parts.2 + (if press {
            "M"@
        } else {
            "m"@
        }),
{
    lemma_decimal_is_the_number(btn);
    lemma_decimal_is_the_number(px);
    lemma_decimal_is_the_number(py);
    (decimal(btn), decimal(px), decimal(py))
}

/// A program is told the cell inside its Pane, counted from one, and nothing
/// while the Pane is frozen.
pub proof fn lemma_cell_counted_inside_the_pane(
    rect: Rect,
    pane: PaneMouse,
    cx: int,
    cy: int,
    kind: MouseKind,
    right: bool,
)
    requires
        rect.x <= cx,
        rect.y <= cy,
    ensures
        pane.copying ==> forwarded(rect, pane, cx, cy, kind, right) is None,
        pane.mode is Off ==> forwarded(rect, pane, cx, cy, kind, right) is None,
        !pane.copying && !(pane.mode is Off) && kind is Click && !pane.sgr
            && cx - rect.x < 223 && cy
            - rect.y < 223 ==> {
            let report = forwarded(rect, pane, cx, cy, kind, right);
            &&& report is Some
            &&& report->0[3] == 32
            &&& report->0[4] == cx - rect.x + 33
            &&& report->0[5] == cy - rect.y + 33
        },
        !pane.copying && !(pane.mode is Off) && kind is Click && pane.sgr ==> forwarded(
            rect,
            pane,
            cx,
            cy,
            kind,
            right,
        ) == Some(mouse_report(true, 0, true, cx - rect.x + 1, cy - rect.y + 1)),
{
}

/// The wheel scrolls a frozen Pane three lines its way and leaves it only at
/// the bottom; it goes to a program that asked for it, to one that has the
/// whole screen as three keys, and else opens the lines that scrolled off.
pub proof fn lemma_wheel_goes_its_way(rect: Rect, pane: PaneMouse, cx: int, cy: int, up: bool)
    ensures
        ({
            let step = wheeled(rect, pane, cx, cy, up);
            let asked = !(pane.mode is Off) && !(pane.mode is X10);
            &&& step is ScrollFrozen <==> pane.copying
            &&& step is ScrollFrozen ==> {
                &&& up ==> step->ScrollFrozen_lines == -3 && !step->leave
                &&& !up ==> step->ScrollFrozen_lines == 3 && step->leave
            }
            &&& step is Send <==> !pane.copying && (asked || pane.alt_screen)
            &&& !pane.copying && !asked && pane.alt_screen ==> {
                let keys = step->Send_0;
                &&& keys.len() == 9
                &&& forall|k: int| 0 <= k < 6 ==> #[trigger] keys[k] == keys[k + 3]
                &&& keys[0] == 0x1b
                &&& pane.app_cursor ==> keys[1] == 0x4f
                &&& !pane.app_cursor ==> keys[1] == 0x5b
                &&& up ==> keys[2] == 0x41
                &&& !up ==> keys[2] == 0x42
            }
            &&& step is OpenScrollback <==> !pane.copying && !asked && !pane.alt_screen && up
                && pane.scrollback
            &&& step is OpenScrollback ==> step->OpenScrollback_lines == -3
        }),
{
    let key = crate::mouse::arrow_key(pane.app_cursor, up);
    let keys = key + key + key;
    assert forall|k: int| 0 <= k < 6 implies #[trigger] keys[k] == keys[k + 3] by {
        if k < 3 {
            assert(keys[k] == key[k] && keys[k + 3] == key[k]);
        } else {
            assert(keys[k] == key[k - 3] && keys[k + 3] == key[k - 3]);
        }
    }
}

/// A press that never moved selects nothing. One that moved keeps what it
/// marked, or copies it where that was asked for, and a mouse that a program
/// owns starts a selection only where drags are kept for text.
pub proof fn lemma_selection_needs_a_drag(
    before: Option<MouseSel>,
    client: Token,
    pane: PaneId,
    facts: PaneMouse,
    cx: u16,
    cy: u16,
    freeze: bool,
    done: bool,
    copy: bool,
)
    ensures
        ({
            let sel = armed(before, client, pane, Some(facts), cx, cy, freeze);
            let owned = !facts.copying && !(facts.mode is Off);
            &&& sel is None <==> owned && !freeze
            &&& sel is Some ==> {
                let plain = finished(sel, done, copy);
                let moved = finished(Some(MouseSel { selecting: true, ..sel->0 }), done, copy);
                &&& sel->0.client == client && sel->0.pane == pane
                &&& sel->0.press_x == cx && sel->0.press_y == cy
                &&& sel->0.deferred_press <==> owned
                &&& !(plain is Yank) && !(plain is Keep)
                &&& plain is LeaveCopy <==> !owned && done
                &&& copy ==> moved == FinishStep::Yank(pane)
                &&& !copy ==> moved == FinishStep::Keep(pane)
            }
        }),
        armed(before, client, pane, None, cx, cy, freeze) == before,
        finished(None, done, copy) is NotOurs,
{
}

/// A drag marks from where the press was, and only the first one says so. A
/// Pane that is not to be seen is not marked in.
pub proof fn lemma_drag_marks_from_the_press(sel: MouseSel, shown: bool, copying: bool)
    ensures
        dragged(None, shown, copying) is None,
        dragged(Some(sel), shown, copying) is Some <==> shown,
        shown ==> {
            let step = dragged(Some(sel), shown, copying)->0;
            &&& step.pane == sel.pane
            &&& step.enter_copy <==> !copying
            &&& sel.selecting ==> step.anchor is None
            &&& !sel.selecting ==> step.anchor == Some((sel.press_x, sel.press_y))
        },
{
}

/// A link opens where a press is released on its own cell in a live Pane whose
/// program leaves the mouse alone; the cell is counted inside the Pane.
pub proof fn lemma_link_opens_on_its_cell(sel: MouseSel, rect: Rect, pane: PaneMouse, cx: int, cy: int)
    ensures
        ({
            let cell = link_cell(Some(sel), Some(rect), Some(pane), cx, cy);
            &&& cell is Some <==> !sel.selecting && sel.press_x == cx && sel.press_y == cy
                && !pane.copying && pane.mode is Off && cx >= rect.x && cy >= rect.y
            &&& cell matches Some((client, x, y)) ==> client == sel.client && rect.x + x == cx
                && rect.y + y == cy
        }),
        link_cell(None, Some(rect), Some(pane), cx, cy) is None,
        link_cell(Some(sel), None, Some(pane), cx, cy) is None,
        link_cell(Some(sel), Some(rect), None, cx, cy) is None,
{
}

/// The divider that follows the pointer lies on the line of the one that was
/// grabbed, and none on that line is nearer.
pub proof fn lemma_divider_follows_the_pointer(
    list: Seq<Divider>,
    last: Divider,
    x: int,
    y: int,
    i: int,
    j: int,
)
    requires
        nearest(list, last, x, y, i),
        0 <= j < list.len(),
        list[j].dir == last.dir,
        last.dir is Horizontal ==> list[j].rect.y == last.rect.y && list[j].rect.h == last.rect.h,
        last.dir is Vertical ==> list[j].rect.x == last.rect.x && list[j].rect.w == last.rect.w,
    ensures
        0 <= i < list.len(),
        list[i].dir == last.dir,
        last.dir is Horizontal ==> {
            &&& list[i].rect.y == last.rect.y && list[i].rect.h == last.rect.h
            &&& list[j].rect.x == x ==> list[i].rect.x == x
        },
        last.dir is Vertical ==> {
            &&& list[i].rect.x == last.rect.x && list[i].rect.w == last.rect.w
            &&& list[j].rect.y == y ==> list[i].rect.y == y
        },
        divider_distance(list[i], last.dir, x, y) <= divider_distance(list[j], last.dir, x, y),
        last.dir is Horizontal && list[j].rect.x >= x ==> divider_distance(list[j], last.dir, x, y)
            == list[j].rect.x - x,
        last.dir is Horizontal && list[j].rect.x <= x ==> divider_distance(list[j], last.dir, x, y)
            == x - list[j].rect.x,
        last.dir is Vertical && list[j].rect.y >= y ==> divider_distance(list[j], last.dir, x, y)
            == list[j].rect.y - y,
        last.dir is Vertical && list[j].rect.y <= y ==> divider_distance(list[j], last.dir, x, y)
            == y - list[j].rect.y,
{
    assert(same_line(list[j], last));
}

proof fn lemma_rect_hit_from(list: Seq<Rect>, cx: int, cy: int, i: int, from: int)
    requires
        0 <= from <= i < list.len(),
        list[i].x <= cx < list[i].x + list[i].w,
        list[i].y <= cy < list[i].y + list[i].h,
        forall|k: int|
            0 <= k < i ==> !((#[trigger] list[k]).x <= cx < list[k].x + list[k].w && list[k].y <= cy
                < list[k].y + list[k].h),
    ensures
        rect_hit(list, cx, cy, from) == Some(i),
    decreases i - from,
{
    if from < i {
        assert(!list[from].has_cell(cx, cy));
        lemma_rect_hit_from(list, cx, cy, i, from + 1);
    }
}

/// Of the places that a cell lies in, the first one is hit.
pub proof fn lemma_place_hit(list: Seq<Rect>, cx: int, cy: int, i: int)
    requires
        0 <= i < list.len(),
        list[i].x <= cx < list[i].x + list[i].w,
        list[i].y <= cy < list[i].y + list[i].h,
        forall|k: int|
            0 <= k < i ==> !((#[trigger] list[k]).x <= cx < list[k].x + list[k].w && list[k].y <= cy
                < list[k].y + list[k].h),
    ensures
        rect_hit(list, cx, cy, 0) == Some(i),
{
    lemma_rect_hit_from(list, cx, cy, i, 0);
}

proof fn lemma_card_hit_from(list: Seq<CardSlot>, cx: int, cy: int, i: int, from: int)
    requires
        0 <= from <= i < list.len(),
        list[i].rect.x <= cx < list[i].rect.x + list[i].rect.w,
        list[i].rect.y <= cy < list[i].rect.y + list[i].rect.h,
        forall|k: int|
            0 <= k < i ==> !((#[trigger] list[k]).rect.x <= cx < list[k].rect.x + list[k].rect.w
                && list[k].rect.y <= cy < list[k].rect.y + list[k].rect.h),
    ensures
        slot_hit(list, cx, cy, from) == Some(list[i]),
    decreases i - from,
{
    if from < i {
        assert(!list[from].rect.has_cell(cx, cy));
        lemma_card_hit_from(list, cx, cy, i, from + 1);
    }
}

/// The card that a cell lies in is hit.
pub proof fn lemma_card_hit(list: Seq<CardSlot>, cx: int, cy: int, i: int)
    requires
        0 <= i < list.len(),
        list[i].rect.x <= cx < list[i].rect.x + list[i].rect.w,
        list[i].rect.y <= cy < list[i].rect.y + list[i].rect.h,
        forall|k: int|
            0 <= k < i ==> !((#[trigger] list[k]).rect.x <= cx < list[k].rect.x + list[k].rect.w
                && list[k].rect.y <= cy < list[k].rect.y + list[k].rect.h),
    ensures
        slot_hit(list, cx, cy, 0) == Some(list[i]),
{
    lemma_card_hit_from(list, cx, cy, i, 0);
}

proof fn lemma_row_hit_from(list: Seq<CardSlot>, cy: int, i: int, from: int)
    requires
        0 <= from <= i < list.len(),
        list[i].rect.y <= cy < list[i].rect.y + list[i].rect.h,
        forall|k: int|
            0 <= k < i ==> !((#[trigger] list[k]).rect.y <= cy < list[k].rect.y + list[k].rect.h),
    ensures
        row_hit(list, cy, from) == Some(list[i]),
    decreases i - from,
{
    if from < i {
        assert(!(list[from].rect.y <= cy < list[from].rect.bottom()));
        lemma_row_hit_from(list, cy, i, from + 1);
    }
}

proof fn lemma_no_row_from(list: Seq<CardSlot>, cy: int, from: int)
    requires
        0 <= from,
        forall|k: int|
            0 <= k < list.len() ==> !((#[trigger] list[k]).rect.y <= cy < list[k].rect.y
                + list[k].rect.h),
    ensures
        row_hit(list, cy, from) is None,
    decreases list.len() - from,
{
    if from < list.len() {
        assert(!(list[from].rect.y <= cy < list[from].rect.bottom()));
        lemma_no_row_from(list, cy, from + 1);
    }
}

/// In a sidebar a card is hit in each of its rows, and between the cards none.
pub proof fn lemma_card_of_a_row(list: Seq<CardSlot>, cy: int, i: int)
    ensures
        0 <= i < list.len() && list[i].rect.y <= cy < list[i].rect.y + list[i].rect.h && (forall|
            k: int,
        |
            0 <= k < i ==> !((#[trigger] list[k]).rect.y <= cy < list[k].rect.y + list[k].rect.h))
            ==> row_hit(list, cy, 0) == Some(list[i]),
        (forall|k: int|
            0 <= k < list.len() ==> !((#[trigger] list[k]).rect.y <= cy < list[k].rect.y
                + list[k].rect.h)) ==> row_hit(list, cy, 0) is None,
{
    if 0 <= i < list.len() && list[i].rect.y <= cy < list[i].rect.y + list[i].rect.h && (forall|
        k: int,
    |
        0 <= k < i ==> !((#[trigger] list[k]).rect.y <= cy < list[k].rect.y + list[k].rect.h)) {
        lemma_row_hit_from(list, cy, i, 0);
    }
    if forall|k: int|
        0 <= k < list.len() ==> !((#[trigger] list[k]).rect.y <= cy < list[k].rect.y
            + list[k].rect.h) {
        lemma_no_row_from(list, cy, 0);
    }
}

proof fn lemma_tab_hit_from(list: Seq<ObservatorySlot>, cx: int, cy: int, i: int, from: int)
    requires
        0 <= from <= i < list.len(),
        list[i].rect.x <= cx < list[i].rect.x + list[i].rect.w,
        list[i].rect.y <= cy < list[i].rect.y + list[i].rect.h,
        forall|k: int|
            0 <= k < i ==> !((#[trigger] list[k]).rect.x <= cx < list[k].rect.x + list[k].rect.w
                && list[k].rect.y <= cy < list[k].rect.y + list[k].rect.h),
    ensures
        tab_hit(list, cx, cy, from) == Some(list[i].tab),
    decreases i - from,
{
    if from < i {
        assert(!list[from].rect.has_cell(cx, cy));
        lemma_tab_hit_from(list, cx, cy, i, from + 1);
    }
}

/// The tab of the right sidebar that a cell lies in is hit.
pub proof fn lemma_sidebar_tab_hit(list: Seq<ObservatorySlot>, cx: int, cy: int, i: int)
    requires
        0 <= i < list.len(),
        list[i].rect.x <= cx < list[i].rect.x + list[i].rect.w,
        list[i].rect.y <= cy < list[i].rect.y + list[i].rect.h,
        forall|k: int|
            0 <= k < i ==> !((#[trigger] list[k]).rect.x <= cx < list[k].rect.x + list[k].rect.w
                && list[k].rect.y <= cy < list[k].rect.y + list[k].rect.h),
    ensures
        tab_hit(list, cx, cy, 0) == Some(list[i].tab),
{
    lemma_tab_hit_from(list, cx, cy, i, 0);
}

proof fn lemma_pane_hit_from(list: Seq<PaneRect>, cx: int, cy: int, i: int, from: int)
    requires
        0 <= from <= i < list.len(),
        list[i].rect.x <= cx < list[i].rect.x + list[i].rect.w,
        list[i].rect.y <= cy < list[i].rect.y + list[i].rect.h,
        forall|k: int|
            0 <= k < i ==> !((#[trigger] list[k]).rect.x <= cx < list[k].rect.x + list[k].rect.w
                && list[k].rect.y <= cy < list[k].rect.y + list[k].rect.h),
    ensures
        pane_hit(list, cx, cy, from) == Some(list[i].pane),
    decreases i - from,
{
    if from < i {
        assert(!list[from].rect.has_cell(cx, cy));
        lemma_pane_hit_from(list, cx, cy, i, from + 1);
    }
}

proof fn lemma_no_pane_from(list: Seq<PaneRect>, cx: int, cy: int, from: int)
    requires
        0 <= from,
        forall|k: int|
            0 <= k < list.len() ==> !((#[trigger] list[k]).rect.x <= cx < list[k].rect.x
                + list[k].rect.w && list[k].rect.y <= cy < list[k].rect.y + list[k].rect.h),
    ensures
        pane_hit(list, cx, cy, from) is None,
    decreases list.len() - from,
{
    if from < list.len() {
        assert(!list[from].rect.has_cell(cx, cy));
        lemma_no_pane_from(list, cx, cy, from + 1);
    }
}

/// The Pane that a cell lies in is hit, and on a divider none.
pub proof fn lemma_pane_under_the_pointer(list: Seq<PaneRect>, cx: int, cy: int, i: int)
    ensures
        0 <= i < list.len() && list[i].rect.x <= cx < list[i].rect.x + list[i].rect.w
            && list[i].rect.y <= cy < list[i].rect.y + list[i].rect.h && (forall|k: int|
            0 <= k < i ==> !((#[trigger] list[k]).rect.x <= cx < list[k].rect.x + list[k].rect.w
                && list[k].rect.y <= cy < list[k].rect.y + list[k].rect.h)) ==> pane_hit(
            list,
            cx,
            cy,
            0,
        ) == Some(list[i].pane),
        (forall|k: int|
            0 <= k < list.len() ==> !((#[trigger] list[k]).rect.x <= cx < list[k].rect.x
                + list[k].rect.w && list[k].rect.y <= cy < list[k].rect.y + list[k].rect.h))
            ==> pane_hit(list, cx, cy, 0) is None,
{
    if 0 <= i < list.len() && list[i].rect.x <= cx < list[i].rect.x + list[i].rect.w
        && list[i].rect.y <= cy < list[i].rect.y + list[i].rect.h && (forall|k: int|
        0 <= k < i ==> !((#[trigger] list[k]).rect.x <= cx < list[k].rect.x + list[k].rect.w
            && list[k].rect.y <= cy < list[k].rect.y + list[k].rect.h)) {
        lemma_pane_hit_from(list, cx, cy, i, 0);
    }
    if forall|k: int|
        0 <= k < list.len() ==> !((#[trigger] list[k]).rect.x <= cx < list[k].rect.x
            + list[k].rect.w && list[k].rect.y <= cy < list[k].rect.y + list[k].rect.h) {
        lemma_no_pane_from(list, cx, cy, 0);
    }
}

proof fn lemma_divider_hit_from(list: Seq<Divider>, cx: int, cy: int, i: int, from: int)
    requires
        0 <= from <= i < list.len(),
        list[i].rect.x <= cx < list[i].rect.x + list[i].rect.w,
        list[i].rect.y <= cy < list[i].rect.y + list[i].rect.h,
        forall|k: int|
            0 <= k < i ==> !((#[trigger] list[k]).rect.x <= cx < list[k].rect.x + list[k].rect.w
                && list[k].rect.y <= cy < list[k].rect.y + list[k].rect.h),
    ensures
        divider_hit(list, cx, cy, from) == Some(list[i]),
    decreases i - from,
{
    if from < i {
        assert(!list[from].rect.has_cell(cx, cy));
        lemma_divider_hit_from(list, cx, cy, i, from + 1);
    }
}

/// The divider that a cell lies on is hit.
pub proof fn lemma_divider_under_the_pointer(list: Seq<Divider>, cx: int, cy: int, i: int)
    requires
        0 <= i < list.len(),
        list[i].rect.x <= cx < list[i].rect.x + list[i].rect.w,
        list[i].rect.y <= cy < list[i].rect.y + list[i].rect.h,
        forall|k: int|
            0 <= k < i ==> !((#[trigger] list[k]).rect.x <= cx < list[k].rect.x + list[k].rect.w
                && list[k].rect.y <= cy < list[k].rect.y + list[k].rect.h),
    ensures
        divider_hit(list, cx, cy, 0) == Some(list[i]),
{
    lemma_divider_hit_from(list, cx, cy, i, 0);
}

/// A list scrolls one item its way, never above its first; up undoes down.
pub proof fn lemma_scroll_by_one(at: int)
    requires
        0 <= at < usize::MAX,
    ensures
        scrolled(at, false) == at + 1,
        scrolled(scrolled(at, false), true) == at,
        at > 0 ==> scrolled(at, true) == at - 1,
        scrolled(0, true) == 0,
{
}

/// Over a Pane each event has its own step: the focus follows a press, and a
/// hover where that was asked for; a right click is for menus alone.
pub proof fn lemma_events_over_a_pane(kind: MouseKind, follows: bool)
    ensures
        step_over(kind, follows) is Press <==> kind is Click,
        step_over(kind, follows) is Hover <==> kind is Hover && follows,
        step_over(kind, follows) is Drag <==> kind is Drag,
        step_over(kind, follows) is Release <==> kind is Release,
        step_over(kind, follows) is Wheel <==> kind is WheelUp || kind is WheelDown,
        step_over(kind, follows) is Wheel ==> (step_over(kind, follows)->up <==> kind is WheelUp),
        step_over(kind, follows).focuses() <==> kind is Click || kind is Hover && follows,
{
}

/// Which part of the screen an event belongs to: the status line has its row,
/// a right click opens menus, an open menu has all else, the right sidebar its
/// columns, the left one its own, and the overview or the Panes the rest.
pub proof fn lemma_event_belongs_to_its_part(
    s: WorkspaceState,
    view: PointerView,
    cx: u16,
    cy: u16,
    kind: MouseKind,
)
    requires
        view.canvas.chrome().status_row != Some(cy),
    ensures
        ({
            let step = s.mouse_step(view, cx, cy, kind);
            let right = view.canvas.right();
            let left = view.canvas.left();
            let on_right = right > 0 && cx + right >= view.canvas.cols;
            let on_left = left > 0 && cx < left;
            &&& kind is RightClick ==> step is ProjectMenu || step is ProjectsMenu
                || step is ForwardRightClick || step is OpenContextMenu
            &&& kind is RightClick && !on_left ==> step is ForwardRightClick
                || step is OpenContextMenu
            &&& step is ContextMenu <==> !(kind is RightClick) && view.menu_open
            &&& !(kind is RightClick) && !view.menu_open && on_right && right <= view.canvas.cols
                ==> {
                &&& view.observatory_tab is Agents ==> step is AgentAction || step is ToggleScope
                    || step is ScrollObservatory || step is ShowAgent || step is Nothing
                &&& view.observatory_tab is Files ==> step is WheelFiles || step is ClickFile
                    || step is FocusFiles || step is Nothing
                &&& view.observatory_tab is WebServers ==> step is ToggleScope
                    || step is ScrollObservatory || step is OpenServer || step is Nothing
            }
            &&& !(kind is RightClick) && !view.menu_open && !on_right && on_left
                ==> step is ScrollProjects || step is SwitchProject || step is Nothing
            &&& !(kind is RightClick) && !view.menu_open && !on_right && !on_left
                && s.overview is Some ==> step is ClickTile || step is HoverTile || step is Nothing
            &&& !(kind is RightClick) && !view.menu_open && !on_right && !on_left
                && s.overview is None ==> step is OpenToast || step is DragDivider
                || step is DropDivider || step is GrabDivider || step is ResumeLive
                || step is Pane
        }),
{
}

/// The wheel scrolls what it is over, each sidebar for itself, and up is up.
pub proof fn lemma_wheel_scrolls_what_it_is_over(
    s: WorkspaceState,
    view: PointerView,
    cx: u16,
    cy: u16,
    kind: MouseKind,
)
    requires
        view.canvas.chrome().status_row != Some(cy),
        kind is WheelUp || kind is WheelDown,
        !view.menu_open,
        view.canvas.right() <= view.canvas.cols,
    ensures
        ({
            let step = s.mouse_step(view, cx, cy, kind);
            let right = view.canvas.right();
            let left = view.canvas.left();
            let on_right = right > 0 && cx + right >= view.canvas.cols;
            let on_left = left > 0 && cx < left;
            let last = view.canvas.chrome().area.y + view.canvas.chrome().area.h - 1;
            &&& on_right && view.observatory_tab is Files ==> {
                &&& step is WheelFiles
                &&& step->WheelFiles_up <==> kind is WheelUp
            }
            &&& on_right && view.observatory_tab is WebServers ==> {
                &&& step is ScrollObservatory
                &&& step->tab is WebServers
                &&& step->ScrollObservatory_up <==> kind is WheelUp
            }
            &&& on_right && view.observatory_tab is Agents && cy < last ==> {
                &&& step is ScrollObservatory
                &&& step->tab is Agents
                &&& step->ScrollObservatory_up <==> kind is WheelUp
            }
            &&& !on_right && on_left ==> {
                &&& step is ScrollProjects
                &&& step->ScrollProjects_up <==> kind is WheelUp
            }
            &&& !on_right && !on_left && s.overview is None ==> {
                &&& step is Pane
                &&& step->step is Wheel
                &&& step->step->up <==> kind is WheelUp
            }
        }),
{
}

/// A click in the left sidebar enters the Project of the card in that row, and
/// a click on a tile of the overview the Tab of that tile.
pub proof fn lemma_click_enters_what_it_is_on(
    s: WorkspaceState,
    view: PointerView,
    cx: u16,
    cy: u16,
    i: int,
)
    requires
        view.canvas.chrome().status_row != Some(cy),
        !view.menu_open,
        view.canvas.right() <= view.canvas.cols,
        !(view.canvas.right() > 0 && cx + view.canvas.right() >= view.canvas.cols),
    ensures
        view.canvas.left() > 0 && cx < view.canvas.left() && 0 <= i < view.project_slots@.len()
            && view.project_slots@[i].rect.y <= cy < view.project_slots@[i].rect.y
            + view.project_slots@[i].rect.h && (forall|k: int|
            0 <= k < i ==> !((#[trigger] view.project_slots@[k]).rect.y <= cy
                < view.project_slots@[k].rect.y + view.project_slots@[k].rect.h))
            && view.project_slots@[i].item < s.projects.len() ==> s.mouse_step(
            view,
            cx,
            cy,
            MouseKind::Click,
        ) == MouseStep::SwitchProject(s.projects[view.project_slots@[i].item as int].id),
        !(view.canvas.left() > 0 && cx < view.canvas.left()) && s.overview is Some && 0 <= i
            < view.tiles@.len() && i <= usize::MAX && view.tiles@[i].x <= cx < view.tiles@[i].x
            + view.tiles@[i].w && view.tiles@[i].y <= cy < view.tiles@[i].y + view.tiles@[i].h && (
        forall|k: int|
            0 <= k < i ==> !((#[trigger] view.tiles@[k]).x <= cx < view.tiles@[k].x
                + view.tiles@[k].w && view.tiles@[k].y <= cy < view.tiles@[k].y
                + view.tiles@[k].h)) ==> s.mouse_step(view, cx, cy, MouseKind::Click)
            == MouseStep::ClickTile(i as usize),
{
    lemma_card_of_a_row(view.project_slots@, cy as int, i);
    if 0 <= i < view.tiles@.len() && view.tiles@[i].x <= cx < view.tiles@[i].x + view.tiles@[i].w
        && view.tiles@[i].y <= cy < view.tiles@[i].y + view.tiles@[i].h && (forall|k: int|
        0 <= k < i ==> !((#[trigger] view.tiles@[k]).x <= cx < view.tiles@[k].x + view.tiles@[k].w
            && view.tiles@[k].y <= cy < view.tiles@[k].y + view.tiles@[k].h)) {
        lemma_place_hit(view.tiles@, cx as int, cy as int, i);
    }
}

/// An entry of a Pane's menu runs the command that it names: to the right is
/// beside, down is below.
pub proof fn lemma_menu_entry_runs_its_command(action: ContextAction)
    ensures
        action is SplitRight ==> menu_command(action) == Some(Command::Split(SplitAxis::LeftRight)),
        action is SplitDown ==> menu_command(action) == Some(Command::Split(SplitAxis::TopBottom)),
        action is Zoom ==> menu_command(action) == Some(Command::ZoomToggle),
        action is Overview ==> menu_command(action) == Some(Command::Overview),
        action is CopyMode ==> menu_command(action) == Some(Command::CopyMode),
        !(action is SplitRight || action is SplitDown || action is Zoom || action is Overview
            || action is CopyMode) ==> menu_command(action) is None,
{
}

/// An entry of a file's menu acts on that file: it deletes only once that was
/// confirmed, and the root of the tree can be neither renamed nor deleted.
pub proof fn lemma_file_menu_acts_on_its_file(
    path: String,
    name: String,
    is_dir: bool,
    action: ContextAction,
    parent: String,
)
    ensures
        ({
            let step = target_step(ContextTarget::File { path, name, is_dir }, action, parent);
            &&& action is Open ==> step == (FileStep::Open { path, is_dir })
            &&& action is CopyPath ==> step == FileStep::Copy(path)
            &&& action is CopyRelativePath ==> step == FileStep::CopyRelative(path)
            &&& action is NewFile ==> step == (FileStep::Create { path, is_dir, folder: false })
            &&& action is NewFolder ==> step == (FileStep::Create { path, is_dir, folder: true })
            &&& action is Rename ==> step == (FileStep::Rename { path, name: Some(name) })
            &&& action is Delete ==> step == (FileStep::AskDelete { path, is_dir })
            &&& step is Delete <==> action is ConfirmFileDelete
            &&& action is ConfirmFileDelete ==> step == FileStep::Delete(path)
            &&& action is Refresh && is_dir ==> step == FileStep::Refresh(path)
            &&& action is Refresh && !is_dir ==> step == FileStep::Refresh(parent)
            &&& action is ToggleHidden ==> step is Redraw
        }),
        ({
            let step = target_step(ContextTarget::FileRoot { root: path }, action, parent);
            &&& !(step is Open) && !(step is Rename) && !(step is AskDelete)
            &&& action is ToggleHidden ==> step is ToggleHidden
            &&& action is Refresh ==> step == FileStep::Refresh(path)
            &&& action is NewFile ==> step == (FileStep::Create {
                path,
                is_dir: true,
                folder: false,
            })
        }),
        target_step(ContextTarget::Doomed { path, is_dir }, ContextAction::ConfirmFileDelete, parent)
            == FileStep::Delete(path),
        target_step(ContextTarget::Doomed { path, is_dir }, ContextAction::Cancel, parent)
            is Redraw,
{
}

/// What the menu of a Pane does: it closes and moves that Pane, runs a command
/// on it with the focus there, and does nothing where it is canceled.
pub proof fn lemma_pane_menu_acts_on_its_pane(
    a: WorkspaceState,
    b: WorkspaceState,
    pane: PaneId,
    action: ContextAction,
    area: Rect,
    parent: String,
    step: MenuStep,
)
    requires
        menu_done(a, b, ContextTarget::Pane(pane), action, area, parent, step),
    ensures
        action is Cancel ==> b == a && step is Repaint,
        action is NewTab ==> b == a && step == MenuStep::Run(Command::NewWindow),
        action is ClosePane ==> b == a.close(pane) && step == MenuStep::Closed(a.closing(pane)),
        action is MoveToNewTab && a.can_move_out(pane) ==> b == a.move_out(pane) && step is Moved,
        action is MoveToNewTab && !a.can_move_out(pane) ==> b == a && step is Repaint,
        action is MoveToTab && step is Moved ==> b == a.move_into(
            pane,
            action->MoveToTab_0 as int,
            area,
        ),
        action is SplitRight && a.tab().shows(pane) ==> step == MenuStep::Run(
            Command::Split(SplitAxis::LeftRight),
        ),
        action is SplitDown && a.tab().shows(pane) ==> step == MenuStep::Run(
            Command::Split(SplitAxis::TopBottom),
        ),
        action is Zoom && a.tab().shows(pane) ==> step == MenuStep::Run(Command::ZoomToggle),
        action is SplitRight || action is SplitDown || action is Zoom || action is Overview
            || action is CopyMode ==> b == a.focus_here(pane),
        for_files(action) ==> b == a && step == MenuStep::Files(FileStep::NotFiles),
{
}

/// Over an open menu a hover marks, a click or a release chooses, and the wheel
/// moves the mark as the letters for up and down do.
pub proof fn lemma_mouse_over_a_menu(kind: MouseKind)
    ensures
        menu_event(kind) is Mark <==> kind is Hover,
        menu_event(kind) is Choose <==> kind is Click || kind is Release,
        kind is WheelUp ==> menu_event(kind) == MenuMouse::Type('k' as u8),
        kind is WheelDown ==> menu_event(kind) == MenuMouse::Type('j' as u8),
        kind is RightClick || kind is Drag ==> menu_event(kind) is Nothing,
{
}

/// A right click over the file tree opens a menu about the file in that row,
/// elsewhere about the Pane under the pointer.
pub proof fn lemma_menu_is_about_what_is_there(view: PointerView, cx: u16, cy: u16)
    requires
        view.canvas.right() <= view.canvas.cols,
    ensures
        ({
            let spot = view.menu_spot(cx, cy);
            let files = view.observatory_tab is Files && view.canvas.right() > 0 && cx
                + view.canvas.right() >= view.canvas.cols;
            let rows = view.file_rows;
            &&& spot is FileSlot <==> files && rows.tree_start <= cy < rows.tree_end
            &&& spot is FileSlot ==> rows.tree_start + spot->FileSlot_0 == cy
            &&& spot is FileRoot <==> files && !(rows.tree_start <= cy < rows.tree_end)
            &&& !files ==> (spot is Pane
                <==> pane_hit(view.panes@, cx as int, cy as int, 0) is Some)
            &&& spot is Pane ==> Some(spot->Pane_0) == pane_hit(
                view.panes@,
                cx as int,
                cy as int,
                0,
            )
        }),
{
}

/// A menu that opens over the files takes the keys there, one over a Pane takes
/// them back, and where there is nothing no menu opens.
pub proof fn lemma_menu_opens_where_something_is(view: ViewState, spot: MenuSpot)
    ensures
        ({
            let after = view.with_menu(spot);
            &&& after.context_menu <==> !(spot is Nothing)
            &&& spot is FileSlot || spot is FileRoot ==> after.files_focused
            &&& spot is Pane ==> !after.files_focused
            &&& spot is Nothing ==> after.files_focused == view.files_focused
            &&& after.sidebar == view.sidebar && after.file_sidebar == view.file_sidebar
            &&& after.observatory_tab == view.observatory_tab
        }),
{
}

/// The right sidebar shows the tab that was chosen. Leaving the files stops
/// watching them and gives the keys back; entering them, or the servers, starts
/// their work; the tab that is shown already changes nothing.
pub proof fn lemma_sidebar_shows_the_chosen_tab(view: ViewState, tab: ObservatoryTab)
    ensures
        ({
            let after = view.with_tab(tab);
            let switch = view.tab_switch(tab);
            &&& after.observatory_tab == tab
            &&& switch is None <==> tab == view.observatory_tab
            &&& tab == view.observatory_tab ==> after == view
            &&& tab != view.observatory_tab && view.observatory_tab is Files
                ==> !after.files_focused
            &&& switch is Some ==> {
                &&& switch->0.stop_files <==> view.observatory_tab is Files
                &&& switch->0.watch_servers <==> tab is WebServers
                &&& switch->0.sync_files <==> tab is Files
            }
            &&& after.context_menu == view.context_menu && after.sidebar == view.sidebar
        }),
{
}

/// What a Pane is told: the wheel and motion go to the Pane under the pointer,
/// a press does unless drags are kept for text where a program owns the mouse,
/// and a release ends whatever the press began.
pub proof fn lemma_pane_is_told(
    sel: Option<MouseSel>,
    pane: PaneId,
    rect: Option<Rect>,
    cx: u16,
    cy: u16,
    facts: PaneFacts,
    up: bool,
)
    ensures
        pane_act(sel, Some(pane), PaneStep::Wheel { up }, rect, cx, cy, facts) == (PaneAct::Wheel {
            pane,
            up,
        }),
        pane_act(sel, Some(pane), PaneStep::Hover, rect, cx, cy, facts) == (PaneAct::Tell {
            pane,
            kind: MouseKind::Hover,
        }),
        !facts.freeze ==> pane_act(sel, Some(pane), PaneStep::Press, rect, cx, cy, facts) == (
        PaneAct::Tell { pane, kind: MouseKind::Click }),
        facts.freeze && facts.under is Some && !facts.under->0.copying && !(
        facts.under->0.mode is Off) ==> pane_act(
            sel,
            Some(pane),
            PaneStep::Press,
            rect,
            cx,
            cy,
            facts,
        ) is Nothing,
        sel is None ==> pane_act(sel, Some(pane), PaneStep::Drag, rect, cx, cy, facts) == (
        PaneAct::Tell { pane, kind: MouseKind::Drag }),
        sel is None ==> pane_act(sel, Some(pane), PaneStep::Release, rect, cx, cy, facts) == (
        PaneAct::Tell { pane, kind: MouseKind::Release }),
        pane_selection(sel, Some(pane), PaneStep::Release, rect, cx, cy, facts) is None,
        pane_selection(sel, Some(pane), PaneStep::Wheel { up }, rect, cx, cy, facts) == sel,
        pane_selection(sel, Some(pane), PaneStep::Hover, rect, cx, cy, facts) == sel,
        step_act(sel, MouseStep::ForwardRightClick(pane), rect, cx, cy, facts) == (PaneAct::Tell {
            pane,
            kind: MouseKind::RightClick,
        }),
{
}

/// A program owns the mouse while its Pane is live and it asked for reports.
pub proof fn lemma_who_owns_the_mouse(pane: PaneMouse)
    ensures
        owns_mouse(pane) <==> !pane.copying && !(pane.mode is Off),
{
}

/// A click on a Tab shows it, one on an agent or a toast shows its Pane with the
/// focus there, and scrolling a bar moves nothing else.
pub proof fn lemma_pointing_shows_it(
    s: WorkspaceState,
    step: MouseStep,
    agent: Option<PaneId>,
    toast: Option<PaneId>,
)
    ensures
        ({
            let after = s.pointed(step, agent, None, toast);
            &&& step is ScrollTabs ==> {
                &&& after.tab_scroll == scrolled(s.tab_scroll, step->ScrollTabs_up)
                &&& !after.tab_scroll_follow_active
                &&& after.windows == s.windows && after.active_window == s.active_window
                &&& after.projects == s.projects && after.project_scroll == s.project_scroll
            }
            &&& step is ScrollProjects ==> {
                &&& after.project_scroll == scrolled(s.project_scroll, step->ScrollProjects_up)
                &&& after.tab_scroll == s.tab_scroll
                &&& after.windows == s.windows && after.active_window == s.active_window
            }
            &&& step is SwitchProject ==> after == s.switch_to(step->SwitchProject_0)
            &&& step is ShowTab ==> after == s.select_tab(step->position as int)
            &&& step is OpenToast && toast is Some ==> after == s.show_pane(toast->0)
            &&& step is HoverTile && s.overview is Some ==> {
                &&& after.overview == Some(step->HoverTile_0)
                &&& after.windows == s.windows && after.active_window == s.active_window
            }
            &&& step is ClickTile && s.overview is Some ==> after == s.leave_overview(
                Some(step->ClickTile_0),
            )
            &&& step is Nothing || step is GrabDivider || step is DropDivider
                || step is ContextMenu || step is OpenContextMenu || step is FocusFiles ==> after
                == s
        }),
{
}

/// To show a Pane is to show its Tab with the focus on it.
pub proof fn lemma_shown_pane_has_the_focus(s: WorkspaceState, pane: PaneId, i: int)
    requires
        s.wf(),
        0 <= i < s.windows.len(),
        s.windows[i].layout.panes().contains(pane),
    ensures
        s.show_pane(pane).active_window == i,
        s.show_pane(pane).tab().active == pane,
        s.show_pane(pane).active_project == s.windows[i].project,
        s.show_pane(pane).windows.len() == s.windows.len(),
        s.show_pane(pane).windows[i].layout == s.windows[i].layout,
{
    crate::hierarchy_laws::lemma_owner(s, pane, i);
    crate::hierarchy::lemma_activate(s, i);
}

/// The status line is clicked at its parts: the Workspace's name opens its menu,
/// a Tab shows that Tab, the marks beside the Tabs scroll them or open another,
/// and a right click on a Tab opens the menu of that Tab.
pub proof fn lemma_clicks_on_the_status_line(
    s: WorkspaceState,
    view: PointerView,
    cx: u16,
    cy: u16,
    kind: MouseKind,
    r: Rect,
    i: int,
)
    requires
        view.canvas.chrome().status_row == Some(cy),
    ensures
        ({
            let step = s.mouse_step(view, cx, cy, kind);
            let button = view.canvas.button_width(view.name_width as int);
            let over = r.x <= cx < r.x + r.w && r.y <= cy < r.y + r.h;
            let free = cx >= button && tab_hit(view.slots@, cx as int, cy as int, 0) is None;
            &&& kind is Click && cx < button <= u16::MAX ==> {
                &&& step is WorkspaceMenu
                &&& step->WorkspaceMenu_anchor.x == 0
                &&& step->WorkspaceMenu_anchor.y == cy
                &&& step->WorkspaceMenu_anchor.w == button
                &&& step->WorkspaceMenu_anchor.h == 1
                &&& step->WorkspaceMenu_above == view.status_at_bottom
            }
            &&& kind is Click && cx >= button && tab_hit(
                view.slots@,
                cx as int,
                cy as int,
                0,
            ) is Some ==> step == MouseStep::SelectObservatory(
                tab_hit(view.slots@, cx as int, cy as int, 0)->0,
            )
            &&& kind is Click && free && view.bar.new_tab == Some(r) && over ==> step is NewTab
            &&& kind is Click && free && view.bar.new_tab is None && view.bar.scroll_left == Some(r)
                && over ==> step is ScrollTabs && step->ScrollTabs_up
            &&& kind is Click && free && view.bar.new_tab is None && view.bar.scroll_left is None
                && view.bar.scroll_right == Some(r) && over ==> step is ScrollTabs
                && !step->ScrollTabs_up
            &&& (kind is WheelUp || kind is WheelDown) && button <= cx && cx + view.canvas.right()
                < view.canvas.cols ==> step is ScrollTabs && (step->ScrollTabs_up
                <==> kind is WheelUp)
            &&& (kind is RightClick || (kind is Click && free && view.bar.new_tab is None
                && view.bar.scroll_left is None && view.bar.scroll_right is None)) && 0 <= i
                < view.bar.tabs@.len() && view.bar.tabs@[i].rect == r && over && (forall|k: int|
                0 <= k < i ==> !((#[trigger] view.bar.tabs@[k]).rect.x <= cx
                    < view.bar.tabs@[k].rect.x + view.bar.tabs@[k].rect.w
                    && view.bar.tabs@[k].rect.y <= cy < view.bar.tabs@[k].rect.y
                    + view.bar.tabs@[k].rect.h)) ==> {
                &&& step is ShowTab
                &&& step->position == view.bar.tabs@[i].item
                &&& kind is Click ==> step->menu is None
                &&& kind is RightClick ==> step->menu == Some(r)
            }
            &&& kind is Hover || kind is Drag || kind is Release ==> step is Nothing
        }),
{
    if 0 <= i < view.bar.tabs@.len() && view.bar.tabs@[i].rect == r && r.x <= cx < r.x + r.w && r.y
        <= cy < r.y + r.h && (forall|k: int|
        0 <= k < i ==> !((#[trigger] view.bar.tabs@[k]).rect.x <= cx < view.bar.tabs@[k].rect.x
            + view.bar.tabs@[k].rect.w && view.bar.tabs@[k].rect.y <= cy < view.bar.tabs@[k].rect.y
            + view.bar.tabs@[k].rect.h)) {
        lemma_card_hit(view.bar.tabs@, cx as int, cy as int, i);
    }
}

/// A right click on the card of a Project opens that Project's menu, above it in
/// the lower half of the screen; beside the cards it opens the menu of all of
/// them. Over a Pane it goes to a program that asked for the mouse, where that is
/// allowed, and opens the Pane's menu else.
pub proof fn lemma_right_click_opens_its_menu(
    s: WorkspaceState,
    view: PointerView,
    cx: u16,
    cy: u16,
    i: int,
)
    requires
        view.canvas.chrome().status_row != Some(cy),
    ensures
        ({
            let step = s.mouse_step(view, cx, cy, MouseKind::RightClick);
            let on_left = view.canvas.left() > 0 && cx < view.canvas.left();
            let lower = cy >= view.canvas.rows as int / 2;
            let pane = pane_hit(view.panes@, cx as int, cy as int, 0);
            &&& on_left && row_hit(view.project_slots@, cy as int, 0) is None ==> {
                &&& step is ProjectsMenu
                &&& step->ProjectsMenu_anchor.y == cy
                &&& step->ProjectsMenu_above <==> lower
            }
            &&& on_left && 0 <= i < view.project_slots@.len() && view.project_slots@[i].rect.y <= cy
                < view.project_slots@[i].rect.y + view.project_slots@[i].rect.h && (forall|k: int|
                0 <= k < i ==> !((#[trigger] view.project_slots@[k]).rect.y <= cy
                    < view.project_slots@[k].rect.y + view.project_slots@[k].rect.h))
                && view.project_slots@[i].item < s.projects.len() ==> {
                &&& step is ProjectMenu
                &&& step->project == s.projects[view.project_slots@[i].item as int].id
                &&& step->ProjectMenu_anchor.y == view.project_slots@[i].rect.y
                &&& step->ProjectMenu_anchor.h == view.project_slots@[i].rect.h
                &&& step->ProjectMenu_above <==> lower
            }
            &&& !on_left && pane is Some && view.pane_right_click && view.tracking@.contains(
                pane->0,
            ) ==> step == MouseStep::ForwardRightClick(pane->0)
            &&& !on_left && !(pane is Some && view.pane_right_click && view.tracking@.contains(
                pane->0,
            )) ==> step is OpenContextMenu
        }),
{
    lemma_card_of_a_row(view.project_slots@, cy as int, i);
}

/// Among the Panes a click opens the toast it is on or takes hold of the divider
/// it is on; a divider that is held follows the drag and is let go at the
/// release; a release on the button back to the live screen presses it; and all
/// else goes to the Pane under the pointer.
pub proof fn lemma_pointer_among_the_panes(
    s: WorkspaceState,
    view: PointerView,
    cx: u16,
    cy: u16,
    kind: MouseKind,
    r: Rect,
)
    requires
        view.canvas.chrome().status_row != Some(cy),
        !(kind is RightClick),
        !view.menu_open,
        view.canvas.right() <= view.canvas.cols,
        !(view.canvas.right() > 0 && cx + view.canvas.right() >= view.canvas.cols),
        !(view.canvas.left() > 0 && cx < view.canvas.left()),
        s.overview is None,
    ensures
        ({
            let step = s.mouse_step(view, cx, cy, kind);
            let over = r.x <= cx < r.x + r.w && r.y <= cy < r.y + r.h;
            let divider = divider_hit(view.dividers@, cx as int, cy as int, 0);
            &&& kind is Click && view.toast && view.canvas.toast() == Some(r) && over
                ==> step is OpenToast
            &&& kind is Click && !view.toast && !view.armed && divider is Some ==> step
                == MouseStep::GrabDivider(divider->0)
            &&& kind is Drag && view.divider_drag is Some ==> step == MouseStep::DragDivider(
                view.divider_drag->0,
            )
            &&& kind is Release && view.divider_drag is Some ==> step is DropDivider
            &&& kind is Release && view.divider_drag is None && view.latest is Some ==> step
                == MouseStep::ResumeLive(view.latest->0)
            &&& kind is Hover || kind is WheelUp || kind is WheelDown || (kind is Drag
                && view.divider_drag is None) || (kind is Release && view.divider_drag is None
                && view.latest is None) || (kind is Click && !view.toast && (view.armed
                || divider is None)) ==> step is Pane && step->Pane_pane == pane_hit(
                view.panes@,
                cx as int,
                cy as int,
                0,
            )
        }),
{
}

/// A click in the right sidebar is for what it is on: an agent's card shows that
/// agent, a server's opens that server, a row of the tree is the file in it, and
/// the mark in the heading changes which are listed.
pub proof fn lemma_click_in_the_right_sidebar(
    s: WorkspaceState,
    view: PointerView,
    cx: u16,
    cy: u16,
)
    requires
        view.canvas.chrome().status_row != Some(cy),
        !view.menu_open,
        view.canvas.right() > 0,
        view.canvas.right() <= view.canvas.cols,
        cx + view.canvas.right() >= view.canvas.cols,
        view.canvas.chrome().area.y + view.canvas.chrome().area.h <= u16::MAX,
        view.agent_scope_x + view.agent_scope_width <= u16::MAX,
        view.server_scope_x + view.server_scope_width <= u16::MAX,
    ensures
        ({
            let step = s.mouse_step(view, cx, cy, MouseKind::Click);
            let area = view.canvas.chrome().area;
            let button = rect_hit(view.agent_actions@, cx as int, cy as int, 0);
            let agent = row_hit(view.agent_slots@, cy as int, 0);
            let server = row_hit(view.server_slots@, cy as int, 0);
            let agent_mark = cy == area.y + 1 && view.agent_scope_x <= cx < view.agent_scope_x
                + view.agent_scope_width;
            let server_mark = cy == area.y + 1 && view.server_scope_x <= cx < view.server_scope_x
                + view.server_scope_width;
            &&& view.observatory_tab is Agents ==> {
                &&& button is Some && button->0 <= usize::MAX && button->0 >= 0 ==> step
                    == MouseStep::AgentAction(button->0 as usize)
                &&& button is None && agent_mark && area.h > 2 ==> step == MouseStep::ToggleScope(
                    ObservatoryTab::Agents,
                )
                &&& button is None && !agent_mark && cy + 1 < area.y + area.h && agent is Some
                    && agent->0.item < view.agents ==> step == MouseStep::ShowAgent(agent->0.item)
                &&& button is None && !agent_mark && agent is None ==> step is Nothing
            }
            &&& view.observatory_tab is WebServers ==> {
                &&& server_mark ==> step == MouseStep::ToggleScope(ObservatoryTab::WebServers)
                &&& !server_mark && server is Some && server->0.item < view.servers ==> step
                    == MouseStep::OpenServer(server->0.item)
                &&& !server_mark && server is None ==> step is Nothing
            }
            &&& view.observatory_tab is Files ==> {
                &&& view.file_rows.tree_start <= cy < view.file_rows.tree_end ==> step is ClickFile
                    && step->ClickFile_0 == cy - view.file_rows.tree_start
                &&& cy < view.file_rows.tree_start || cy >= view.file_rows.tree_end
                    ==> step is FocusFiles
            }
        }),
{
}

/// What the pointer changed of the Workspace is painted, and another Tab or
/// Project that is shown by it is laid out.
pub proof fn lemma_what_the_pointer_changed_is_painted(
    s: WorkspaceState,
    step: MouseStep,
    agent: Option<PaneId>,
    redivided: Option<LayoutNode>,
    toast: Option<PaneId>,
)
    requires
        s.windows.len() <= usize::MAX,
    ensures
        ({
            let after = s.pointed(step, agent, redivided, toast);
            let effect = s.point_effect(step, agent, redivided, toast);
            &&& after != s ==> effect.repaint
            &&& after.active_window != s.active_window ==> effect.relayout
            &&& effect.relayout ==> effect.repaint
            &&& step is DropDivider ==> effect.persist && after == s
        }),
{
    if step is SwitchProject {
        let project = step->SwitchProject_0;
        let tabs = tabs_of(s.windows, project);
        lemma_tabs_among(s.windows, project, s.windows.len());
        match project_at(s.projects, project) {
            Some(i) => match s.projects[i].active_pane {
                Some(pane) => {
                    lemma_tab_showing(s.windows, tabs, pane);
                },
                None => {},
            },
            None => {},
        }
        if s.entry_tab(project) is Some {
            let index = s.entry_tab(project)->0;
            let j = choose|j: int| 0 <= j < tabs.len() && tabs[j] == index;
            assert(s.windows[tabs[j] as int].project == project);
            assert(has_tab(s.windows, project));
        }
    }
}

/// Where the pointer went in the file tree, the tree has the keys; a menu that
/// was chosen from is closed; and all else of what is shown stays.
pub proof fn lemma_pointer_and_what_is_shown(view: ViewState, step: MouseStep, focused: bool)
    ensures
        ({
            let after = view.pointed(step, focused);
            &&& step is FocusFiles || step is WheelFiles ==> after.files_focused
            &&& step is ClickFile ==> after.files_focused == focused
            &&& step is FocusFiles || step is WheelFiles || step is ClickFile
                ==> after.observatory_tab == view.observatory_tab && after.context_menu
                == view.context_menu
            &&& step is SelectObservatory ==> after.observatory_tab
                == step->SelectObservatory_0
            &&& step == MouseStep::ContextMenu(MenuMouse::Choose) ==> !after.context_menu
                && after.files_focused == view.files_focused
            &&& step is ScrollTabs || step is ScrollProjects || step is ShowTab || step is Pane
                || step is SwitchProject || step is Nothing ==> after == view
        }),
{
}

} // verus!
