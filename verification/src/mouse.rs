//! The mouse inside a Pane: the reports that its program asked for, the wheel,
//! text selection, and dividers that follow the pointer.
use crate::layout::Divider;
use crate::text::{push_decimal, push_text};
use crate::types::{PaneId, Rect, SplitDir, Token};
use vstd::prelude::*;
use vstd::utf8::*;

verus! {

#[derive(Clone, Copy, Debug, PartialEq, Eq, Structural)]
pub enum MouseKind {
    Hover,
    Click,
    RightClick,
    Drag,
    Release,
    WheelUp,
    WheelDown,
}

/// What a program asked to hear of the mouse.
#[derive(Clone, Copy, Debug, PartialEq, Eq, Structural)]
pub enum MouseMode {
    Off,
    /// Presses only.
    X10,
    /// Presses, releases and the wheel.
    Normal,
    /// Drags too.
    Button,
    /// Every motion.
    Any,
}

/// What the mouse does in a Pane depends on this of its terminal.
#[derive(Clone, Copy, Debug, PartialEq, Eq, Structural)]
pub struct PaneMouse {
    pub mode: MouseMode,
    /// Reports are written as numbers.
    pub sgr: bool,
    pub alt_screen: bool,
    pub app_cursor: bool,
    pub scrollback: bool,
    /// The Pane is frozen in copy mode.
    pub copying: bool,
}

/// A report with numbers: any coordinate, and whether it is a release.
pub open spec fn sgr_report(btn: int, press: bool, px: int, py: int) -> Seq<char> {
    "\u{1b}[<"@ + crate::text::decimal(btn as nat) + ";"@ + crate::text::decimal(px as nat) + ";"@
        + crate::text::decimal(py as nat) + if press {
        "M"@
    } else {
        "m"@
    }
}

/// A coordinate of a report in single bytes: the last that one byte can say.
pub open spec fn byte_coordinate(p: int) -> int {
    if p <= 223 {
        32 + p
    } else {
        255
    }
}

/// The bytes that tell a program of a mouse event.
pub open spec fn mouse_report(sgr: bool, btn: int, press: bool, px: int, py: int) -> Seq<u8> {
    if sgr {
        encode_utf8(sgr_report(btn, press, px, py))
    } else {
        seq![
            27u8,
            91u8,
            77u8,
            (32 + if press {
                btn
            } else {
                3
            }) as u8,
            byte_coordinate(px) as u8,
            byte_coordinate(py) as u8,
        ]
    }
}

/// Encode a mouse event for a Pane's program, at a cell of the Pane counted
/// from one. A release without numbers names no button.
pub fn encode_mouse_report(sgr: bool, btn: u8, press: bool, px: u16, py: u16) -> (bytes: Vec<u8>)
    requires
        !sgr && press ==> btn <= 223,
    ensures
        bytes@ == mouse_report(sgr, btn as int, press, px as int, py as int),
{
    let mut bytes: Vec<u8> = Vec::new();
    if sgr {
        let mut text = "\u{1b}[<".to_owned();
        push_decimal(&mut text, btn as u64);
        push_text(&mut text, ";");
        push_decimal(&mut text, px as u64);
        push_text(&mut text, ";");
        push_decimal(&mut text, py as u64);
        push_text(
            &mut text,
            if press {
                "M"
            } else {
                "m"
            },
        );
        crate::queue::push_bytes(&mut bytes, text.as_str().as_bytes());
        assert(bytes@ =~= encode_utf8(text@));
    } else {
        let b: u8 = if press {
            btn
        } else {
            3
        };
        let x: u8 = if px <= 223 {
            32 + px as u8
        } else {
            255
        };
        let y: u8 = if py <= 223 {
            32 + py as u8
        } else {
            255
        };
        bytes.push(27);
        bytes.push(91);
        bytes.push(77);
        bytes.push(32 + b);
        bytes.push(x);
        bytes.push(y);
        assert(bytes@ =~= mouse_report(sgr, btn as int, press, px as int, py as int));
    }
    bytes
}

/// A program hears of an event only where it asked for it.
pub open spec fn wanted(mode: MouseMode, kind: MouseKind, right_click: bool) -> bool {
    match mode {
        MouseMode::Off => false,
        MouseMode::X10 => kind == MouseKind::Click,
        _ => match kind {
            MouseKind::Hover => mode == MouseMode::Any,
            MouseKind::Drag => mode == MouseMode::Button || mode == MouseMode::Any,
            MouseKind::RightClick => right_click,
            _ => true,
        },
    }
}

fn is_wanted(mode: MouseMode, kind: MouseKind, right_click: bool) -> (yes: bool)
    ensures
        yes == wanted(mode, kind, right_click),
{
    match mode {
        MouseMode::Off => false,
        MouseMode::X10 => kind == MouseKind::Click,
        _ => match kind {
            MouseKind::Hover => mode == MouseMode::Any,
            MouseKind::Drag => mode == MouseMode::Button || mode == MouseMode::Any,
            MouseKind::RightClick => right_click,
            _ => true,
        },
    }
}

/// The button code of an event, and whether it is a press.
pub open spec fn button_code(kind: MouseKind) -> (int, bool) {
    match kind {
        MouseKind::Click => (0, true),
        MouseKind::Release => (0, false),
        MouseKind::Drag => (32, true),
        MouseKind::Hover => (35, true),
        MouseKind::WheelUp => (64, true),
        MouseKind::WheelDown => (65, true),
        MouseKind::RightClick => (2, true),
    }
}

fn button_of(kind: MouseKind) -> (code: (u8, bool))
    ensures
        (code.0 as int, code.1) == button_code(kind),
        code.0 <= 65,
{
    match kind {
        MouseKind::Click => (0, true),
        MouseKind::Release => (0, false),
        MouseKind::Drag => (32, true),
        MouseKind::Hover => (35, true),
        MouseKind::WheelUp => (64, true),
        MouseKind::WheelDown => (65, true),
        MouseKind::RightClick => (2, true),
    }
}

/// A coordinate counted from one inside a Pane that starts at `start`.
pub open spec fn inside(start: int, c: int) -> int {
    crate::canvas::less(c, start) + 1
}

fn inside_pane(start: u16, c: u16) -> (p: u16)
    requires
        inside(start as int, c as int) <= u16::MAX,
    ensures
        p == inside(start as int, c as int),
{
    c.saturating_sub(start) + 1
}

/// What a Pane's program is told of an event at cell (`cx`, `cy`).
pub open spec fn forwarded(
    rect: Rect,
    pane: PaneMouse,
    cx: int,
    cy: int,
    kind: MouseKind,
    right_click: bool,
) -> Option<Seq<u8>> {
    if pane.copying || !wanted(pane.mode, kind, right_click) {
        None
    } else {
        let (btn, press) = button_code(kind);
        Some(
            mouse_report(
                pane.sgr,
                btn,
                press,
                inside(rect.x as int, cx),
                inside(rect.y as int, cy),
            ),
        )
    }
}

/// The bytes of an optional list.
pub open spec fn bytes_of(list: Option<Vec<u8>>) -> Option<Seq<u8>> {
    match list {
        Some(bytes) => Some(bytes@),
        None => None,
    }
}

/// The report that forwards a mouse event to a Pane's program, where it asked
/// for it. A Pane frozen in copy mode gets nothing.
pub fn forward_mouse_to_app(
    rect: Rect,
    pane: PaneMouse,
    cx: u16,
    cy: u16,
    kind: MouseKind,
    right_click: bool,
) -> (report: Option<Vec<u8>>)
    requires
        inside(rect.x as int, cx as int) <= u16::MAX,
        inside(rect.y as int, cy as int) <= u16::MAX,
    ensures
        bytes_of(report) == forwarded(rect, pane, cx as int, cy as int, kind, right_click),
{
    if pane.copying || !is_wanted(pane.mode, kind, right_click) {
        return None;
    }
    let (btn, press) = button_of(kind);
    let px: u16 = inside_pane(rect.x, cx);
    let py: u16 = inside_pane(rect.y, cy);
    Some(encode_mouse_report(pane.sgr, btn, press, px, py))
}

/// Lines that one notch of the wheel scrolls.
pub const WHEEL_LINES: i32 = 3;

/// What the wheel does over a Pane.
#[derive(Debug)]
pub enum WheelStep {
    Nothing,
    /// Scroll the frozen view by so many lines, down where positive; leave copy
    /// mode where `leave` and the live screen is reached.
    ScrollFrozen { lines: i32, leave: bool },
    /// Send these bytes to the program.
    Send(Vec<u8>),
    /// Freeze the Pane and scroll by so many lines.
    OpenScrollback { lines: i32 },
}

/// The value of a wheel step.
pub enum WheelText {
    Nothing,
    ScrollFrozen { lines: i32, leave: bool },
    Send(Seq<u8>),
    OpenScrollback { lines: i32 },
}

/// The value of a wheel step.
pub open spec fn wheel_text(step: WheelStep) -> WheelText {
    match step {
        WheelStep::Nothing => WheelText::Nothing,
        WheelStep::ScrollFrozen { lines, leave } => WheelText::ScrollFrozen { lines, leave },
        WheelStep::Send(bytes) => WheelText::Send(bytes@),
        WheelStep::OpenScrollback { lines } => WheelText::OpenScrollback { lines },
    }
}

/// An arrow key as the program expects it.
pub open spec fn arrow_key(app_cursor: bool, up: bool) -> Seq<u8> {
    seq![
        27u8,
        if app_cursor {
            79u8
        } else {
            91u8
        },
        if up {
            65u8
        } else {
            66u8
        },
    ]
}

/// The lines of one notch, negative on the way up.
pub open spec fn notch(up: bool) -> i32 {
    if up {
        (-WHEEL_LINES) as i32
    } else {
        WHEEL_LINES
    }
}

/// What the wheel does over a Pane.
pub open spec fn wheeled(rect: Rect, pane: PaneMouse, cx: int, cy: int, up: bool) -> WheelText {
    if pane.copying {
        WheelText::ScrollFrozen { lines: notch(up), leave: !up }
    } else if pane.mode != MouseMode::Off && pane.mode != MouseMode::X10 {
        WheelText::Send(
            mouse_report(
                pane.sgr,
                if up {
                    64
                } else {
                    65
                },
                true,
                inside(rect.x as int, cx),
                inside(rect.y as int, cy),
            ),
        )
    } else if pane.alt_screen {
        let key = arrow_key(pane.app_cursor, up);
        WheelText::Send(key + key + key)
    } else if up && pane.scrollback {
        WheelText::OpenScrollback { lines: notch(true) }
    } else {
        WheelText::Nothing
    }
}

fn push_arrow(bytes: &mut Vec<u8>, app_cursor: bool, up: bool)
    ensures
        final(bytes)@ == old(bytes)@ + arrow_key(app_cursor, up),
{
    let ghost head = bytes@;
    bytes.push(27);
    bytes.push(
        if app_cursor {
            79
        } else {
            91
        },
    );
    bytes.push(
        if up {
            65
        } else {
            66
        },
    );
    assert(bytes@ =~= head + arrow_key(app_cursor, up));
}

/// Route the wheel over a Pane: a frozen Pane scrolls; a program that tracks
/// the mouse gets the report; another full-screen program gets arrow keys;
/// else the scrollback opens on the way up.
pub fn on_wheel(rect: Rect, pane: PaneMouse, cx: u16, cy: u16, up: bool) -> (step: WheelStep)
    requires
        inside(rect.x as int, cx as int) <= u16::MAX,
        inside(rect.y as int, cy as int) <= u16::MAX,
    ensures
        wheel_text(step) == wheeled(rect, pane, cx as int, cy as int, up),
{
    if pane.copying {
        let lines: i32 = if up {
            -WHEEL_LINES
        } else {
            WHEEL_LINES
        };
        WheelStep::ScrollFrozen { lines, leave: !up }
    } else if pane.mode != MouseMode::Off && pane.mode != MouseMode::X10 {
        let btn: u8 = if up {
            64
        } else {
            65
        };
        let px: u16 = inside_pane(rect.x, cx);
        let py: u16 = inside_pane(rect.y, cy);
        WheelStep::Send(encode_mouse_report(pane.sgr, btn, true, px, py))
    } else if pane.alt_screen {
        let mut bytes: Vec<u8> = Vec::new();
        push_arrow(&mut bytes, pane.app_cursor, up);
        push_arrow(&mut bytes, pane.app_cursor, up);
        push_arrow(&mut bytes, pane.app_cursor, up);
        let ghost key = arrow_key(pane.app_cursor, up);
        assert(bytes@ =~= key + key + key);
        WheelStep::Send(bytes)
    } else if up && pane.scrollback {
        WheelStep::OpenScrollback { lines: -WHEEL_LINES }
    } else {
        WheelStep::Nothing
    }
}

/// A press that may become a text selection.
#[derive(Clone, Copy, Debug, PartialEq, Eq, Structural)]
pub struct MouseSel {
    pub client: Token,
    pub pane: PaneId,
    pub press_x: u16,
    pub press_y: u16,
    /// A drag followed: text is being selected.
    pub selecting: bool,
    /// The program owns the mouse and is still owed the press.
    pub deferred_press: bool,
}

/// A program that tracks the mouse in a live Pane owns it.
pub open spec fn owns_mouse(pane: PaneMouse) -> bool {
    !pane.copying && pane.mode != MouseMode::Off
}

/// What a press leaves armed.
pub open spec fn armed(
    before: Option<MouseSel>,
    client: Token,
    pane: PaneId,
    facts: Option<PaneMouse>,
    cx: u16,
    cy: u16,
    freeze: bool,
) -> Option<MouseSel> {
    match facts {
        None => before,
        Some(facts) => if owns_mouse(facts) && !freeze {
            None
        } else {
            Some(
                MouseSel {
                    client,
                    pane,
                    press_x: cx,
                    press_y: cy,
                    selecting: false,
                    deferred_press: owns_mouse(facts),
                },
            )
        },
    }
}

/// Arm a text selection at a press; whether the press is withheld from the
/// program until the release shows what it was. A program that owns the mouse
/// gets the press at once, unless drags are kept for selection everywhere.
pub fn arm_selection(
    sel: &mut Option<MouseSel>,
    client: Token,
    pane: PaneId,
    facts: Option<PaneMouse>,
    cx: u16,
    cy: u16,
    freeze: bool,
) -> (withheld: bool)
    ensures
        *final(sel) == armed(*old(sel), client, pane, facts, cx, cy, freeze),
        withheld == (freeze && facts is Some && owns_mouse(facts.unwrap())),
{
    let facts = match facts {
        Some(facts) => facts,
        None => {
            return false;
        },
    };
    let owned = !facts.copying && facts.mode != MouseMode::Off;
    if owned && !freeze {
        *sel = None;
        return false;
    }
    *sel = Some(
        MouseSel {
            client,
            pane,
            press_x: cx,
            press_y: cy,
            selecting: false,
            deferred_press: owned,
        },
    );
    owned
}

/// The cell of the Pane, from zero, at which a plain click may open a link, and
/// the client that clicked.
pub open spec fn link_cell(
    sel: Option<MouseSel>,
    rect: Option<Rect>,
    pane: Option<PaneMouse>,
    cx: int,
    cy: int,
) -> Option<(Token, int, int)> {
    match (sel, rect, pane) {
        (Some(s), Some(r), Some(p)) => if s.selecting || s.press_x != cx || s.press_y != cy
            || p.copying || p.mode != MouseMode::Off || cx < r.x || cy < r.y {
            None
        } else {
            Some((s.client, cx - r.x, cy - r.y))
        },
        _ => None,
    }
}

/// Where a release that ends a plain click may open a link.
pub fn plain_click_cell(
    sel: Option<MouseSel>,
    rect: Option<Rect>,
    pane: Option<PaneMouse>,
    cx: u16,
    cy: u16,
) -> (cell: Option<(Token, u16, u16)>)
    ensures
        match cell {
            Some((client, x, y)) => link_cell(sel, rect, pane, cx as int, cy as int) == Some(
                (client, x as int, y as int),
            ),
            None => link_cell(sel, rect, pane, cx as int, cy as int) is None,
        },
{
    let s = sel?;
    let r = rect?;
    let p = pane?;
    if s.selecting || s.press_x != cx || s.press_y != cy || p.copying || p.mode != MouseMode::Off
        || cx < r.x || cy < r.y {
        return None;
    }
    Some((s.client, cx - r.x, cy - r.y))
}

/// What a drag asks of the Pane whose text it selects.
#[derive(Clone, Copy, Debug, PartialEq, Eq)]
pub struct DragStep {
    pub pane: PaneId,
    /// Freeze the Pane first.
    pub enter_copy: bool,
    /// The selection starts here.
    pub anchor: Option<(u16, u16)>,
}

/// What a drag asks; `None` where no selection is armed.
pub open spec fn dragged(sel: Option<MouseSel>, shown: bool, copying: bool) -> Option<DragStep> {
    match sel {
        Some(s) => if shown {
            Some(
                DragStep {
                    pane: s.pane,
                    enter_copy: !copying,
                    anchor: if s.selecting {
                        None
                    } else {
                        Some((s.press_x, s.press_y))
                    },
                },
            )
        } else {
            None
        },
        None => None,
    }
}

/// Continue a selection. The first drag anchors it at the press; a Pane that is
/// gone or not shown drops it.
pub fn drag_selection(sel: &mut Option<MouseSel>, shown: bool, copying: bool) -> (step: Option<
    DragStep,
>)
    ensures
        step == dragged(*old(sel), shown, copying),
        *final(sel) == match *old(sel) {
            Some(s) => if shown {
                Some(MouseSel { selecting: true, ..s })
            } else {
                None
            },
            None => None,
        },
{
    let s = match *sel {
        Some(s) => s,
        None => {
            return None;
        },
    };
    if !shown {
        *sel = None;
        return None;
    }
    let anchor = if s.selecting {
        None
    } else {
        Some((s.press_x, s.press_y))
    };
    *sel = Some(MouseSel { selecting: true, ..s });
    Some(DragStep { pane: s.pane, enter_copy: !copying, anchor })
}

/// What a release does with an armed selection.
#[derive(Clone, Copy, Debug, PartialEq, Eq, Structural)]
pub enum FinishStep {
    /// The release belongs to the program.
    NotOurs,
    /// A plain click in a program that owns the mouse: deliver the press it was
    /// owed, and this release.
    DeliverClick { pane: PaneId, press_x: u16, press_y: u16 },
    /// A plain click dismisses the finished selection.
    LeaveCopy(PaneId),
    /// Keep the selection highlighted.
    Keep(PaneId),
    /// Copy the text to the clipboard and return to the live screen.
    Yank(PaneId),
}

/// What a release does.
pub open spec fn finished(sel: Option<MouseSel>, done: bool, copy_on_select: bool) -> FinishStep {
    match sel {
        None => FinishStep::NotOurs,
        Some(s) => if s.selecting {
            if copy_on_select {
                FinishStep::Yank(s.pane)
            } else {
                FinishStep::Keep(s.pane)
            }
        } else if s.deferred_press {
            FinishStep::DeliverClick { pane: s.pane, press_x: s.press_x, press_y: s.press_y }
        } else if done {
            FinishStep::LeaveCopy(s.pane)
        } else {
            FinishStep::NotOurs
        },
    }
}

/// Finish a selection on release. `done` says that the Pane shows a selection
/// that an earlier release finished. Nothing stays armed.
pub fn finish_selection(sel: &mut Option<MouseSel>, done: bool, copy_on_select: bool) -> (step:
    FinishStep)
    ensures
        step == finished(*old(sel), done, copy_on_select),
        *final(sel) is None,
{
    let taken = sel.take();
    match taken {
        None => FinishStep::NotOurs,
        Some(s) => {
            if s.selecting {
                if copy_on_select {
                    FinishStep::Yank(s.pane)
                } else {
                    FinishStep::Keep(s.pane)
                }
            } else if s.deferred_press {
                FinishStep::DeliverClick { pane: s.pane, press_x: s.press_x, press_y: s.press_y }
            } else if done {
                FinishStep::LeaveCopy(s.pane)
            } else {
                FinishStep::NotOurs
            }
        },
    }
}

/// A program that owns the mouse hears each plain click exactly once: at the
/// press, or at the release with the press that was withheld.
pub proof fn lemma_click_delivered_once(
    before: Option<MouseSel>,
    client: Token,
    pane: PaneId,
    facts: PaneMouse,
    cx: u16,
    cy: u16,
    freeze: bool,
    done: bool,
    copy_on_select: bool,
)
    requires
        owns_mouse(facts),
    ensures
        ({
            let sel = armed(before, client, pane, Some(facts), cx, cy, freeze);
            let step = finished(sel, done, copy_on_select);
            if freeze {
                step == (FinishStep::DeliverClick { pane, press_x: cx, press_y: cy })
            } else {
                step == FinishStep::NotOurs
            }
        }),
{
}

/// Two dividers lie on the same line: the same direction and the same span
/// across it.
pub open spec fn same_line(a: Divider, b: Divider) -> bool {
    a.dir == b.dir && match b.dir {
        SplitDir::Horizontal => a.rect.y == b.rect.y && a.rect.h == b.rect.h,
        SplitDir::Vertical => a.rect.x == b.rect.x && a.rect.w == b.rect.w,
    }
}

/// How far a divider lies from the pointer along the drag.
pub open spec fn divider_distance(d: Divider, dir: SplitDir, x: int, y: int) -> int {
    let gap = match dir {
        SplitDir::Horizontal => d.rect.x - x,
        SplitDir::Vertical => d.rect.y - y,
    };
    if gap < 0 {
        -gap
    } else {
        gap
    }
}

/// The divider at `i` is the first of those nearest to the pointer on the line
/// of `previous`.
pub open spec fn nearest(list: Seq<Divider>, previous: Divider, x: int, y: int, i: int) -> bool {
    &&& 0 <= i < list.len()
    &&& same_line(list[i], previous)
    &&& forall|j: int|
        0 <= j < list.len() && same_line(#[trigger] list[j], previous) ==> {
            let here = divider_distance(list[i], previous.dir, x, y);
            let there = divider_distance(list[j], previous.dir, x, y);
            here <= there && (j < i ==> here < there)
        }
}

fn on_line(a: &Divider, b: &Divider) -> (same: bool)
    ensures
        same == same_line(*a, *b),
{
    a.dir == b.dir && match b.dir {
        SplitDir::Horizontal => a.rect.y == b.rect.y && a.rect.h == b.rect.h,
        SplitDir::Vertical => a.rect.x == b.rect.x && a.rect.w == b.rect.w,
    }
}

fn distance_to(d: &Divider, dir: SplitDir, x: u16, y: u16) -> (gap: u16)
    ensures
        gap == divider_distance(*d, dir, x as int, y as int),
{
    let (a, b): (u16, u16) = match dir {
        SplitDir::Horizontal => (d.rect.x, x),
        SplitDir::Vertical => (d.rect.y, y),
    };
    if a < b {
        b - a
    } else {
        a - b
    }
}

/// After a drag moved `previous`, find the same divider again: of those on its
/// line, the one nearest to the pointer.
pub fn moved_divider(list: &Vec<Divider>, previous: Divider, x: u16, y: u16) -> (found: Option<
    Divider,
>)
    ensures
        match found {
            Some(d) => exists|i: int| #[trigger]
                nearest(list@, previous, x as int, y as int, i) && d == list@[i],
            None => forall|j: int|
                0 <= j < list@.len() ==> !same_line(#[trigger] list@[j], previous),
        },
{
    let mut best: Option<usize> = None;
    let mut i: usize = 0;
    while i < list.len()
        invariant
            i <= list@.len(),
            match best {
                Some(b) => b < i && nearest(list@.take(i as int), previous, x as int, y as int, b as int),
                None => forall|j: int| 0 <= j < i ==> !same_line(#[trigger] list@[j], previous),
            },
        decreases list@.len() - i,
    {
        let ghost before = list@.take(i as int);
        let ghost after = list@.take(i + 1);
        assert(forall|j: int| 0 <= j < i ==> before[j] == #[trigger] after[j]);
        let ghost was = best;
        if on_line(&list[i], &previous) {
            best = match best {
                Some(b) => {
                    if distance_to(&list[i], previous.dir, x, y) < distance_to(
                        &list[b],
                        previous.dir,
                        x,
                        y,
                    ) {
                        Some(i)
                    } else {
                        Some(b)
                    }
                },
                None => Some(i),
            };
        }
        proof {
            if let Some(b) = best {
                assert(same_line(after[b as int], previous));
                assert forall|j: int|
                    0 <= j < after.len() && same_line(#[trigger] after[j], previous) implies {
                    let here = divider_distance(after[b as int], previous.dir, x as int, y as int);
                    let there = divider_distance(after[j], previous.dir, x as int, y as int);
                    here <= there && (j < b ==> here < there)
                } by {
                    if j < i {
                        assert(before[j] == after[j]);
                        assert(list@[j] == after[j]);
                    }
                }
                assert(nearest(after, previous, x as int, y as int, b as int));
            }
        }
        i += 1;
    }
    assert(list@.take(i as int) =~= list@);
    match best {
        Some(b) => {
            assert(nearest(list@, previous, x as int, y as int, b as int));
            Some(list[b])
        },
        None => None,
    }
}

} // verus!
