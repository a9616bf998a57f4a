//! Identifiers and small geometry shared by every module.
use vstd::prelude::*;

verus! {

/// Identity of one Pane. Ids are never reused within a server's life.
#[derive(Clone, Copy, Debug, PartialEq, Eq, Structural)]
pub struct PaneId(pub u64);

/// Identity of one Project.
#[derive(Clone, Copy, Debug, PartialEq, Eq, Structural)]
pub struct ProjectId(pub u64);

/// Readiness token of one source registered with the poller.
#[derive(Clone, Copy, Debug, PartialEq, Eq, Structural)]
pub struct Token(pub usize);

/// Direction of a split: `Horizontal` places the halves side by side,
/// `Vertical` stacks them.
#[derive(Clone, Copy, Debug, PartialEq, Eq, Structural)]
pub enum SplitDir {
    Horizontal,
    Vertical,
}

/// A rectangle of terminal cells.
#[derive(Clone, Copy, Debug, PartialEq, Eq, Structural)]
pub struct Rect {
    pub x: u16,
    pub y: u16,
    pub w: u16,
    pub h: u16,
}

impl Rect {
    /// One past the last column.
    pub open spec fn right(self) -> int {
        self.x + self.w
    }

    /// One past the last row.
    pub open spec fn bottom(self) -> int {
        self.y + self.h
    }

    /// The cell (`cx`, `cy`) lies inside the rectangle.
    pub open spec fn has_cell(self, cx: int, cy: int) -> bool {
        self.x <= cx < self.right() && self.y <= cy < self.bottom()
    }

    /// Every cell of `self` is a cell of `outer`.
    pub open spec fn inside(self, outer: Rect) -> bool {
        &&& outer.x <= self.x
        &&& outer.y <= self.y
        &&& self.right() <= outer.right()
        &&& self.bottom() <= outer.bottom()
    }

    /// No cell belongs to both rectangles.
    pub open spec fn disjoint(self, other: Rect) -> bool {
        forall|cx: int, cy: int|
            !(#[trigger] self.has_cell(cx, cy) && #[trigger] other.has_cell(cx, cy))
    }

    /// The far edges stay addressable by cell coordinates.
    pub open spec fn fits(self) -> bool {
        self.right() <= u16::MAX && self.bottom() <= u16::MAX
    }

    pub fn new(x: u16, y: u16, w: u16, h: u16) -> (rect: Rect)
        ensures
            rect == (Rect { x, y, w, h }),
    {
        Rect { x, y, w, h }
    }

    /// Whether the cell (`cx`, `cy`) lies inside the rectangle.
    pub fn contains(&self, cx: u16, cy: u16) -> (inside: bool)
        ensures
            inside == self.has_cell(cx as int, cy as int),
    {
        cx >= self.x && cx - self.x < self.w && cy >= self.y && cy - self.y < self.h
    }
}

} // verus!
