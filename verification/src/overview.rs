//! The overview of a Project's Tabs: its keys, its selection and how it is left.
use crate::hierarchy::{lemma_activate, tabs_of, Workspace, WorkspaceState};
use crate::tabs::lemma_tabs_among;
use vstd::prelude::*;

verus! {

/// What a run of keys comes to.
#[derive(Clone, Copy, Debug, PartialEq, Eq, Structural)]
pub enum OverviewKeys {
    /// The overview stays open with this tile selected.
    Stay(usize),
    /// The overview closes and the focus stays.
    Cancel,
    /// The overview closes on this tile.
    Pick(usize),
}

/// A step in the grid of tiles.
#[derive(Clone, Copy, Debug, PartialEq, Eq, Structural)]
pub enum GridStep {
    Up,
    Down,
    Left,
    Right,
}

/// The tile that a step leads to: never past the first or the last.
pub open spec fn stepped(sel: int, step: GridStep, cols: int, n: int) -> int {
    match step {
        GridStep::Up => if sel >= cols {
            sel - cols
        } else {
            0
        },
        GridStep::Down => if sel + cols < n {
            sel + cols
        } else {
            sel
        },
        GridStep::Left => if sel >= 1 {
            sel - 1
        } else {
            0
        },
        GridStep::Right => if sel + 1 < n {
            sel + 1
        } else {
            sel
        },
    }
}

fn step_to(sel: usize, step: GridStep, cols: usize, n: usize) -> (to: usize)
    ensures
        to == stepped(sel as int, step, cols as int, n as int),
{
    match step {
        GridStep::Up => sel.saturating_sub(cols),
        GridStep::Down => {
            if sel < n && cols < n - sel {
                sel + cols
            } else {
                sel
            }
        },
        GridStep::Left => sel.saturating_sub(1),
        GridStep::Right => {
            if sel < n && 1 < n - sel {
                sel + 1
            } else {
                sel
            }
        },
    }
}

/// The step that an arrow key asks for, by its last byte.
pub open spec fn arrow_step(b: u8) -> Option<GridStep> {
    if b == 65 {
        Some(GridStep::Up)
    } else if b == 66 {
        Some(GridStep::Down)
    } else if b == 67 {
        Some(GridStep::Right)
    } else if b == 68 {
        Some(GridStep::Left)
    } else {
        None
    }
}

fn arrow_of(b: u8) -> (step: Option<GridStep>)
    ensures
        step == arrow_step(b),
{
    if b == 65 {
        Some(GridStep::Up)
    } else if b == 66 {
        Some(GridStep::Down)
    } else if b == 67 {
        Some(GridStep::Right)
    } else if b == 68 {
        Some(GridStep::Left)
    } else {
        None
    }
}

/// The step that a letter asks for: `k`, `j`, `h` or `l`.
pub open spec fn letter_step(b: u8) -> Option<GridStep> {
    if b == 107 {
        Some(GridStep::Up)
    } else if b == 106 {
        Some(GridStep::Down)
    } else if b == 108 {
        Some(GridStep::Right)
    } else if b == 104 {
        Some(GridStep::Left)
    } else {
        None
    }
}

fn letter_of(b: u8) -> (step: Option<GridStep>)
    ensures
        step == letter_step(b),
{
    if b == 107 {
        Some(GridStep::Up)
    } else if b == 106 {
        Some(GridStep::Down)
    } else if b == 108 {
        Some(GridStep::Right)
    } else if b == 104 {
        Some(GridStep::Left)
    } else {
        None
    }
}

/// The tile that a digit names: `1` the first, `0` the tenth.
pub open spec fn digit_tile(b: u8) -> int {
    if b == 48 {
        9
    } else {
        b - 49
    }
}

/// What the bytes from `i` on come to, with tile `sel` of `n` selected.
pub open spec fn overview_keys(bytes: Seq<u8>, i: int, sel: int, cols: int, n: int) -> OverviewKeys
    decreases bytes.len() + 3 - i,
{
    if i < 0 || i >= bytes.len() {
        OverviewKeys::Stay(sel as usize)
    } else {
        let b = bytes[i];
        if b == 27 {
            if i + 1 < bytes.len() && bytes[i + 1] == 91 {
                let next = if i + 2 < bytes.len() {
                    match arrow_step(bytes[i + 2]) {
                        Some(step) => stepped(sel, step, cols, n),
                        None => sel,
                    }
                } else {
                    sel
                };
                overview_keys(bytes, i + 3, next, cols, n)
            } else {
                OverviewKeys::Cancel
            }
        } else if b == 113 || b == 119 || b == 3 {
            OverviewKeys::Cancel
        } else if b == 13 || b == 10 {
            OverviewKeys::Pick(sel as usize)
        } else if 48 <= b <= 57 && digit_tile(b) < n {
            OverviewKeys::Pick(digit_tile(b) as usize)
        } else {
            let next = match letter_step(b) {
                Some(step) => stepped(sel, step, cols, n),
                None => sel,
            };
            overview_keys(bytes, i + 1, next, cols, n)
        }
    }
}

/// Read a run of keys with tile `sel` of `n` selected, `cols` tiles to a row.
pub fn read_overview_keys(bytes: &[u8], sel: usize, cols: usize, n: usize) -> (keys: OverviewKeys)
    ensures
        keys == overview_keys(bytes@, 0, sel as int, cols as int, n as int),
{
    let mut at: usize = sel;
    let mut i: usize = 0;
    let len: usize = bytes.len();
    while i < len
        invariant
            i <= len,
            len == bytes@.len(),
            overview_keys(bytes@, 0, sel as int, cols as int, n as int) == overview_keys(
                bytes@,
                i as int,
                at as int,
                cols as int,
                n as int,
            ),
        decreases len - i,
    {
        let b: u8 = bytes[i];
        if b == 27 {
            if len - i > 1 && bytes[i + 1] == 91 {
                if len - i > 2 {
                    if let Some(step) = arrow_of(bytes[i + 2]) {
                        at = step_to(at, step, cols, n);
                    }
                    i += 3;
                } else {
                    assert(overview_keys(bytes@, i + 3, at as int, cols as int, n as int)
                        == OverviewKeys::Stay(at));
                    i = len;
                }
                continue ;
            }
            return OverviewKeys::Cancel;
        }
        if b == 113 || b == 119 || b == 3 {
            return OverviewKeys::Cancel;
        }
        if b == 13 || b == 10 {
            return OverviewKeys::Pick(at);
        }
        if b >= 48 && b <= 57 {
            let tile: usize = if b == 48 {
                9
            } else {
                (b - 49) as usize
            };
            if tile < n {
                return OverviewKeys::Pick(tile);
            }
        }
        if let Some(step) = letter_of(b) {
            at = step_to(at, step, cols, n);
        }
        i += 1;
    }
    OverviewKeys::Stay(at)
}

/// The selection of the overview never leaves the grid.
pub proof fn lemma_selection_stays(bytes: Seq<u8>, i: int, sel: int, cols: int, n: int)
    requires
        0 <= sel < n,
        0 <= cols,
        n <= usize::MAX,
    ensures
        overview_keys(bytes, i, sel, cols, n) matches OverviewKeys::Stay(s) ==> s < n,
        overview_keys(bytes, i, sel, cols, n) matches OverviewKeys::Pick(s) ==> s < n,
    decreases bytes.len() + 3 - i,
{
    if 0 <= i < bytes.len() {
        let b = bytes[i];
        if b == 27 {
            if i + 1 < bytes.len() && bytes[i + 1] == 91 {
                let next = if i + 2 < bytes.len() {
                    match arrow_step(bytes[i + 2]) {
                        Some(step) => stepped(sel, step, cols, n),
                        None => sel,
                    }
                } else {
                    sel
                };
                lemma_selection_stays(bytes, i + 3, next, cols, n);
            }
        } else {
            let next = match letter_step(b) {
                Some(step) => stepped(sel, step, cols, n),
                None => sel,
            };
            lemma_selection_stays(bytes, i + 1, next, cols, n);
        }
    }
}

/// What the overview asks of the host after keys or a click.
#[derive(Clone, Copy, Debug, PartialEq, Eq, Structural)]
pub enum OverviewChange {
    Nothing,
    /// Another tile is selected, or the overview closed: paint everything.
    Repaint,
    /// Another Tab is shown: lay it out, save, and paint everything.
    Switched,
}

impl WorkspaceState {
    /// The state after the overview closed, on the tile that was picked.
    pub open spec fn leave_overview(self, pick: Option<usize>) -> WorkspaceState {
        let closed = WorkspaceState { overview: None, ..self };
        match self.picked(pick) {
            Some(index) => closed.activate(index),
            None => closed,
        }
    }

    /// The Tab that a picked tile shows.
    pub open spec fn picked(self, pick: Option<usize>) -> Option<int> {
        let tabs = tabs_of(self.windows, self.active_project);
        match pick {
            Some(tile) => if tile < tabs.len() {
                Some(tabs[tile as int] as int)
            } else {
                None
            },
            None => None,
        }
    }

    /// The tile that is selected: the last one where the selection is past it.
    pub open spec fn selected_tile(self) -> int {
        let n = tabs_of(self.windows, self.active_project).len();
        match self.overview {
            Some(sel) => if n == 0 {
                0
            } else if sel < n {
                sel as int
            } else {
                n - 1
            },
            None => 0,
        }
    }

    /// The state after keys were typed into the overview.
    pub open spec fn overview_typed(self, bytes: Seq<u8>, cols: int) -> WorkspaceState {
        if self.overview is None {
            self
        } else {
            let n = tabs_of(self.windows, self.active_project).len() as int;
            match overview_keys(bytes, 0, self.selected_tile(), cols, n) {
                OverviewKeys::Stay(sel) => WorkspaceState { overview: Some(sel), ..self },
                OverviewKeys::Cancel => self.leave_overview(None),
                OverviewKeys::Pick(tile) => self.leave_overview(Some(tile)),
            }
        }
    }

    /// What keys typed into the overview ask of the host.
    pub open spec fn overview_change(self, bytes: Seq<u8>, cols: int) -> OverviewChange {
        if self.overview is None {
            OverviewChange::Nothing
        } else {
            let n = tabs_of(self.windows, self.active_project).len() as int;
            match overview_keys(bytes, 0, self.selected_tile(), cols, n) {
                OverviewKeys::Stay(sel) => if self.overview == Some(sel) {
                    OverviewChange::Nothing
                } else {
                    OverviewChange::Repaint
                },
                OverviewKeys::Cancel => OverviewChange::Repaint,
                OverviewKeys::Pick(tile) => if self.picked(Some(tile)) is Some {
                    OverviewChange::Switched
                } else {
                    OverviewChange::Repaint
                },
            }
        }
    }
}

impl Workspace {
    /// Close the overview, and show the Tab of the tile that was picked.
    pub fn leave_overview(&mut self, pick: Option<usize>) -> (change: OverviewChange)
        requires
            old(self)@.wf(),
        ensures
            final(self)@ == old(self)@.leave_overview(pick),
            change == if old(self)@.picked(pick) is Some {
                OverviewChange::Switched
            } else {
                OverviewChange::Repaint
            },
            final(self)@.wf(),
            old(self)@.all_open() ==> final(self)@.all_open(),
    {
        let ghost s = self@;
        self.overview = None;
        assert(self@ =~= (WorkspaceState { overview: None, ..s }));
        if let Some(tile) = pick {
            let tabs = self.project_window_indices(self.active_project);
            if tile < tabs.len() {
                proof {
                    assert(self.windows.len() <= usize::MAX);
                    lemma_tabs_among(self@.windows, self@.active_project, self@.windows.len());
                    lemma_activate(self@, tabs@[tile as int] as int);
                }
                self.activate_window(tabs[tile]);
                return OverviewChange::Switched;
            }
        }
        OverviewChange::Repaint
    }

    /// Drive the overview with keys, `cols` tiles to a row: arrows and `hjkl`
    /// move the selection, a digit or Enter picks a tile, Escape, `q`, `w` and
    /// Control-C cancel.
    pub fn handle_overview_input(&mut self, bytes: &[u8], cols: usize) -> (change: OverviewChange)
        requires
            old(self)@.wf(),
        ensures
            final(self)@ == old(self)@.overview_typed(bytes@, cols as int),
            change == old(self)@.overview_change(bytes@, cols as int),
            final(self)@.wf(),
            old(self)@.all_open() ==> final(self)@.all_open(),
    {
        let ghost s = self@;
        let cur: usize = match self.overview {
            Some(sel) => sel,
            None => {
                return OverviewChange::Nothing;
            },
        };
        let tabs = self.project_window_indices(self.active_project);
        let n: usize = tabs.len();
        let sel: usize = if n == 0 {
            0
        } else if cur < n {
            cur
        } else {
            n - 1
        };
        match read_overview_keys(bytes, sel, cols, n) {
            OverviewKeys::Stay(sel) => {
                if sel == cur {
                    assert(self@ =~= s.overview_typed(bytes@, cols as int));
                    return OverviewChange::Nothing;
                }
                self.overview = Some(sel);
                assert(self@ =~= s.overview_typed(bytes@, cols as int));
                OverviewChange::Repaint
            },
            OverviewKeys::Cancel => self.leave_overview(None),
            OverviewKeys::Pick(tile) => self.leave_overview(Some(tile)),
        }
    }

    /// A pointer over a tile: a hover selects it, a click shows its Tab.
    pub fn point_at_tile(&mut self, tile: usize, click: bool) -> (change: OverviewChange)
        requires
            old(self)@.wf(),
            old(self)@.overview is Some,
        ensures
            final(self)@ == if click {
                old(self)@.leave_overview(Some(tile))
            } else {
                (WorkspaceState { overview: Some(tile), ..old(self)@ })
            },
            change == if click {
                if old(self)@.picked(Some(tile)) is Some {
                    OverviewChange::Switched
                } else {
                    OverviewChange::Repaint
                }
            } else if old(self)@.overview == Some(tile) {
                OverviewChange::Nothing
            } else {
                OverviewChange::Repaint
            },
            final(self)@.wf(),
            old(self)@.all_open() ==> final(self)@.all_open(),
    {
        let ghost s = self@;
        if click {
            return self.leave_overview(Some(tile));
        }
        let same = match self.overview {
            Some(sel) => sel == tile,
            None => false,
        };
        self.overview = Some(tile);
        assert(self@ =~= (WorkspaceState { overview: Some(tile), ..s }));
        if same {
            OverviewChange::Nothing
        } else {
            OverviewChange::Repaint
        }
    }
}

} // verus!
