//! The layout tree of one Tab: which Panes it shows and where they go.
//!
//! A split's ratio is the first half's share in basis points, so that a layout
//! survives a trip through the Workspace catalog unchanged.
use crate::types::{PaneId, Rect, SplitDir};
use std::collections::VecDeque;
use vstd::prelude::*;

verus! {

/// The share of an even split.
pub const EVEN_RATIO: u16 = 5000;

/// The smallest share either half of a split can be given.
pub const MIN_RATIO: u16 = 1;

/// The largest share the first half of a split can be given.
pub const MAX_RATIO: u16 = 9999;

/// A binary tree over Panes.
#[derive(Debug)]
pub enum LayoutNode {
    Leaf(PaneId),
    Split { dir: SplitDir, ratio: u16, first: Box<LayoutNode>, second: Box<LayoutNode> },
}

impl LayoutNode {
    /// The Panes of the tree from the first leaf to the last.
    pub open spec fn panes(self) -> Seq<PaneId>
        decreases self,
    {
        match self {
            LayoutNode::Leaf(pane) => seq![pane],
            LayoutNode::Split { first, second, .. } => first.panes() + second.panes(),
        }
    }

    /// The tree without the leaves that show `pane`: a split that loses one
    /// half becomes its other half.
    pub open spec fn minus(self, pane: PaneId) -> Option<LayoutNode>
        decreases self,
    {
        match self {
            LayoutNode::Leaf(id) => if id == pane {
                None
            } else {
                Some(self)
            },
            LayoutNode::Split { dir, ratio, first, second } => match (
                first.minus(pane),
                second.minus(pane),
            ) {
                (Some(a), Some(b)) => Some(
                    LayoutNode::Split { dir, ratio, first: Box::new(a), second: Box::new(b) },
                ),
                (Some(a), None) => Some(a),
                (None, Some(b)) => Some(b),
                (None, None) => None,
            },
        }
    }

    /// The tree with every leaf that shows `at` split evenly, the new Pane in
    /// the second half.
    pub open spec fn with_split(self, at: PaneId, dir: SplitDir, new: PaneId) -> LayoutNode
        decreases self,
    {
        match self {
            LayoutNode::Leaf(id) => if id == at {
                LayoutNode::Split {
                    dir,
                    ratio: EVEN_RATIO,
                    first: Box::new(LayoutNode::Leaf(at)),
                    second: Box::new(LayoutNode::Leaf(new)),
                }
            } else {
                self
            },
            LayoutNode::Split { dir: d, ratio, first, second } => LayoutNode::Split {
                dir: d,
                ratio,
                first: Box::new(first.with_split(at, dir, new)),
                second: Box::new(second.with_split(at, dir, new)),
            },
        }
    }

    /// A copy of the tree.
    pub fn copy(&self) -> (out: LayoutNode)
        ensures
            out == *self,
        decreases self,
    {
        match self {
            LayoutNode::Leaf(id) => LayoutNode::Leaf(*id),
            LayoutNode::Split { dir, ratio, first, second } => LayoutNode::Split {
                dir: *dir,
                ratio: *ratio,
                first: Box::new(first.copy()),
                second: Box::new(second.copy()),
            },
        }
    }

    /// The Panes of the tree in order.
    pub fn pane_ids(&self) -> (ids: Vec<PaneId>)
        ensures
            ids@ == self.panes(),
        decreases self,
    {
        match self {
            LayoutNode::Leaf(id) => {
                let mut ids: Vec<PaneId> = Vec::new();
                ids.push(*id);
                ids
            },
            LayoutNode::Split { first, second, .. } => {
                let mut ids = first.pane_ids();
                let mut rest = second.pane_ids();
                ids.append(&mut rest);
                ids
            },
        }
    }

    /// Whether the tree shows `pane`.
    pub fn contains_pane(&self, pane: PaneId) -> (found: bool)
        ensures
            found == self.panes().contains(pane),
        decreases self,
    {
        match self {
            LayoutNode::Leaf(id) => {
                assert(self.panes()[0] == *id);
                *id == pane
            },
            LayoutNode::Split { first, second, .. } => {
                proof {
                    lemma_concat_contains(first.panes(), second.panes(), pane);
                }
                first.contains_pane(pane) || second.contains_pane(pane)
            },
        }
    }

    /// The first Pane of the tree.
    pub fn first_pane(&self) -> (pane: PaneId)
        ensures
            pane == self.panes()[0],
            self.panes().contains(pane),
        decreases self,
    {
        match self {
            LayoutNode::Leaf(id) => {
                assert(self.panes()[0] == *id);
                *id
            },
            LayoutNode::Split { first, .. } => {
                let pane = first.first_pane();
                proof {
                    lemma_panes_nonempty(**first);
                    assert(self.panes()[0] == first.panes()[0]);
                }
                pane
            },
        }
    }

    /// The tree without `pane`, or `None` where no other Pane is left.
    pub fn without(&self, pane: PaneId) -> (out: Option<LayoutNode>)
        ensures
            out == self.minus(pane),
        decreases self,
    {
        match self {
            LayoutNode::Leaf(id) => if *id == pane {
                None
            } else {
                Some(LayoutNode::Leaf(*id))
            },
            LayoutNode::Split { dir, ratio, first, second } => match (
                first.without(pane),
                second.without(pane),
            ) {
                (Some(a), Some(b)) => Some(
                    LayoutNode::Split {
                        dir: *dir,
                        ratio: *ratio,
                        first: Box::new(a),
                        second: Box::new(b),
                    },
                ),
                (Some(a), None) => Some(a),
                (None, Some(b)) => Some(b),
                (None, None) => None,
            },
        }
    }

    /// Split the leaf that shows `at` evenly and put `new` in its second half.
    pub fn split(&mut self, at: PaneId, dir: SplitDir, new: PaneId)
        ensures
            *final(self) == old(self).with_split(at, dir, new),
    {
        let out = self.split_copy(at, dir, new);
        *self = out;
    }

    fn split_copy(&self, at: PaneId, dir: SplitDir, new: PaneId) -> (out: LayoutNode)
        ensures
            out == self.with_split(at, dir, new),
        decreases self,
    {
        match self {
            LayoutNode::Leaf(id) => if *id == at {
                LayoutNode::Split {
                    dir,
                    ratio: EVEN_RATIO,
                    first: Box::new(LayoutNode::Leaf(at)),
                    second: Box::new(LayoutNode::Leaf(new)),
                }
            } else {
                LayoutNode::Leaf(*id)
            },
            LayoutNode::Split { dir: d, ratio, first, second } => LayoutNode::Split {
                dir: *d,
                ratio: *ratio,
                first: Box::new(first.split_copy(at, dir, new)),
                second: Box::new(second.split_copy(at, dir, new)),
            },
        }
    }
}

proof fn lemma_concat_contains(a: Seq<PaneId>, b: Seq<PaneId>, pane: PaneId)
    ensures
        (a + b).contains(pane) == (a.contains(pane) || b.contains(pane)),
{
    if a.contains(pane) {
        let i = choose|i: int| 0 <= i < a.len() && a[i] == pane;
        assert((a + b)[i] == pane);
    }
    if b.contains(pane) {
        let i = choose|i: int| 0 <= i < b.len() && b[i] == pane;
        assert((a + b)[a.len() + i] == pane);
    }
    if (a + b).contains(pane) {
        let i = choose|i: int| 0 <= i < (a + b).len() && (a + b)[i] == pane;
        if i < a.len() {
            assert(a[i] == pane);
        } else {
            assert(b[i - a.len()] == pane);
        }
    }
}

/// Every layout shows at least one Pane.
pub proof fn lemma_panes_nonempty(node: LayoutNode)
    ensures
        node.panes().len() > 0,
    decreases node,
{
    if let LayoutNode::Split { first, .. } = node {
        lemma_panes_nonempty(*first);
    }
}

/// The Panes other than `pane`.
pub open spec fn other_than(pane: PaneId) -> spec_fn(PaneId) -> bool {
    |q: PaneId| q != pane
}

/// Removing a Pane leaves exactly the other Panes; nothing is left only where
/// there was no other.
pub proof fn lemma_minus(node: LayoutNode, pane: PaneId)
    ensures
        node.minus(pane) is None <==> (forall|q: PaneId|
            #[trigger] node.panes().contains(q) ==> q == pane),
        node.minus(pane) matches Some(rest) ==> (forall|q: PaneId| #[trigger]
            rest.panes().contains(q) <==> node.panes().contains(q) && q != pane),
    decreases node,
{
    match node {
        LayoutNode::Leaf(id) => {
            assert(node.panes() =~= seq![id]);
            assert(seq![id][0] == id);
            assert(node.panes().contains(id));
        },
        LayoutNode::Split { first, second, .. } => {
            lemma_minus(*first, pane);
            lemma_minus(*second, pane);
            lemma_panes_nonempty(*first);
            lemma_panes_nonempty(*second);
            assert forall|q: PaneId| #[trigger] node.panes().contains(q) == (
            first.panes().contains(q) || second.panes().contains(q)) by {
                lemma_concat_contains(first.panes(), second.panes(), q);
            }
            if let (Some(a), Some(b)) = (first.minus(pane), second.minus(pane)) {
                assert forall|q: PaneId| #[trigger] (a.panes() + b.panes()).contains(q) == (
                a.panes().contains(q) || b.panes().contains(q)) by {
                    lemma_concat_contains(a.panes(), b.panes(), q);
                }
            }
            if let Some(a) = first.minus(pane) {
                lemma_panes_nonempty(a);
                assert(a.panes().contains(a.panes()[0]));
                assert(node.panes().contains(a.panes()[0]));
            }
            if let Some(b) = second.minus(pane) {
                lemma_panes_nonempty(b);
                assert(b.panes().contains(b.panes()[0]));
                assert(node.panes().contains(b.panes()[0]));
            }
        },
    }
}

/// Removing a Pane keeps the order of the others.
pub proof fn lemma_minus_order(node: LayoutNode, pane: PaneId)
    ensures
        node.minus(pane) matches Some(rest) ==> rest.panes() == node.panes().filter(
            other_than(pane),
        ),
    decreases node,
{
    let keep = other_than(pane);
    match node {
        LayoutNode::Leaf(id) => {
            reveal(Seq::filter);
            let one = seq![id];
            assert(node.panes() =~= one);
            assert(one.drop_last() =~= Seq::<PaneId>::empty());
            assert(one.drop_last().filter(keep) =~= Seq::<PaneId>::empty());
            if id != pane {
                assert(keep(one.last()));
                assert(one.filter(keep) =~= one);
            }
        },
        LayoutNode::Split { first, second, .. } => {
            lemma_minus_order(*first, pane);
            lemma_minus_order(*second, pane);
            lemma_minus(*first, pane);
            lemma_minus(*second, pane);
            lemma_filter_none(first.panes(), pane);
            lemma_filter_none(second.panes(), pane);
            Seq::filter_distributes_over_add(first.panes(), second.panes(), keep);
            if first.minus(pane) is Some && second.minus(pane) is None {
                assert(node.panes().filter(keep) =~= first.panes().filter(keep));
            }
            if first.minus(pane) is None && second.minus(pane) is Some {
                assert(node.panes().filter(keep) =~= second.panes().filter(keep));
            }
        },
    }
}

proof fn lemma_filter_none(s: Seq<PaneId>, pane: PaneId)
    ensures
        (forall|q: PaneId| #[trigger] s.contains(q) ==> q == pane) ==> s.filter(
            other_than(pane),
        ) =~= Seq::<PaneId>::empty(),
    decreases s.len(),
{
    let keep = other_than(pane);
    if forall|q: PaneId| #[trigger] s.contains(q) ==> q == pane {
        reveal(Seq::filter);
        if s.len() > 0 {
            assert(s.contains(s.last()));
            assert forall|q: PaneId| #[trigger] s.drop_last().contains(q) implies q == pane by {
                let i = choose|i: int| 0 <= i < s.drop_last().len() && s.drop_last()[i] == q;
                assert(s[i] == q);
                assert(s.contains(q));
            }
            lemma_filter_none(s.drop_last(), pane);
        }
    }
}

/// Removing a Pane keeps the others distinct.
pub proof fn lemma_minus_distinct(node: LayoutNode, pane: PaneId)
    requires
        node.panes().no_duplicates(),
    ensures
        node.minus(pane) matches Some(rest) ==> rest.panes().no_duplicates(),
{
    lemma_minus_order(node, pane);
    if node.minus(pane) is Some {
        lemma_filter_distinct(node.panes(), pane);
    }
}

proof fn lemma_filter_distinct(s: Seq<PaneId>, pane: PaneId)
    requires
        s.no_duplicates(),
    ensures
        s.filter(other_than(pane)).no_duplicates(),
        forall|q: PaneId| #[trigger]
            s.filter(other_than(pane)).contains(q) ==> s.contains(q),
    decreases s.len(),
{
    let keep = other_than(pane);
    reveal(Seq::filter);
    if s.len() > 0 {
        lemma_filter_distinct(s.drop_last(), pane);
        let rest = s.drop_last().filter(keep);
        assert forall|q: PaneId| #[trigger] rest.contains(q) implies s.contains(q) && q
            != s.last() by {
            assert(s.drop_last().contains(q));
            let i = choose|i: int| 0 <= i < s.drop_last().len() && s.drop_last()[i] == q;
            assert(s[i] == q);
        }
        if s.last() != pane {
            assert(s.filter(keep) =~= rest.push(s.last()));
            assert(s.contains(s.last()));
            assert forall|q: PaneId| #[trigger] s.filter(keep).contains(q) implies s.contains(
                q,
            ) by {
                let i = choose|i: int|
                    0 <= i < s.filter(keep).len() && s.filter(keep)[i] == q;
                if i < rest.len() {
                    assert(rest.contains(rest[i]));
                }
            }
            assert forall|i: int, j: int|
                0 <= i < j < rest.push(s.last()).len() implies rest.push(s.last())[i] != rest.push(
                s.last(),
            )[j] by {
                assert(rest.contains(rest[i]));
            }
        } else {
            assert(s.filter(keep) =~= rest);
        }
    }
}

/// Splitting a Pane that the layout shows adds exactly the new one.
pub proof fn lemma_with_split(node: LayoutNode, at: PaneId, dir: SplitDir, new: PaneId)
    ensures
        forall|q: PaneId| #[trigger]
            node.with_split(at, dir, new).panes().contains(q) <==> (node.panes().contains(q) || (q
                == new && node.panes().contains(at))),
        node.panes().no_duplicates() && !node.panes().contains(new) ==> node.with_split(
            at,
            dir,
            new,
        ).panes().no_duplicates(),
        node.panes().no_duplicates() && node.panes().contains(at) && !node.panes().contains(new)
            ==> node.with_split(at, dir, new).panes().len() == node.panes().len() + 1,
        !node.panes().contains(at) ==> node.with_split(at, dir, new) == node,
    decreases node,
{
    let out = node.with_split(at, dir, new);
    match node {
        LayoutNode::Leaf(id) => {
            assert(node.panes() =~= seq![id]);
            assert(node.panes()[0] == id);
            if id == at {
                assert(seq![at] + seq![new] =~= seq![at, new]);
                assert(out.panes() =~= seq![at, new]) by {
                    reveal_with_fuel(LayoutNode::panes, 3);
                }
                assert(out.panes()[0] == at && out.panes()[1] == new);
            }
        },
        LayoutNode::Split { dir: d, ratio, first, second } => {
            lemma_with_split(*first, at, dir, new);
            lemma_with_split(*second, at, dir, new);
            let a = first.with_split(at, dir, new);
            let b = second.with_split(at, dir, new);
            assert(out.panes() == a.panes() + b.panes());
            assert forall|q: PaneId| #[trigger] out.panes().contains(q) == (a.panes().contains(q)
                || b.panes().contains(q)) by {
                lemma_concat_contains(a.panes(), b.panes(), q);
            }
            assert forall|q: PaneId| #[trigger] node.panes().contains(q) == (
            first.panes().contains(q) || second.panes().contains(q)) by {
                lemma_concat_contains(first.panes(), second.panes(), q);
            }
            if node.panes().no_duplicates() && !node.panes().contains(new) {
                lemma_concat_distinct(first.panes(), second.panes());
                assert forall|q: PaneId| #[trigger] a.panes().contains(q) implies !b.panes().contains(
                    q,
                ) by {
                    if q == new && b.panes().contains(q) {
                        assert(first.panes().contains(at) && second.panes().contains(at));
                    }
                }
                lemma_concat_distinct_intro(a.panes(), b.panes());
            }
        },
    }
}

proof fn lemma_concat_distinct(a: Seq<PaneId>, b: Seq<PaneId>)
    requires
        (a + b).no_duplicates(),
    ensures
        a.no_duplicates(),
        b.no_duplicates(),
        forall|q: PaneId| #[trigger] a.contains(q) ==> !b.contains(q),
{
    let s = a + b;
    assert forall|i: int, j: int| 0 <= i < j < a.len() implies a[i] != a[j] by {
        assert(s[i] == a[i] && s[j] == a[j]);
    }
    assert forall|i: int, j: int| 0 <= i < j < b.len() implies b[i] != b[j] by {
        assert(s[a.len() + i] == b[i] && s[a.len() + j] == b[j]);
    }
    assert forall|q: PaneId| #[trigger] a.contains(q) implies !b.contains(q) by {
        if b.contains(q) {
            let i = choose|i: int| 0 <= i < a.len() && a[i] == q;
            let j = choose|j: int| 0 <= j < b.len() && b[j] == q;
            assert(s[i] == q && s[a.len() + j] == q);
        }
    }
}

proof fn lemma_concat_distinct_intro(a: Seq<PaneId>, b: Seq<PaneId>)
    requires
        a.no_duplicates(),
        b.no_duplicates(),
        forall|q: PaneId| #[trigger] a.contains(q) ==> !b.contains(q),
    ensures
        (a + b).no_duplicates(),
{
    let s = a + b;
    assert forall|i: int, j: int| 0 <= i < j < s.len() implies s[i] != s[j] by {
        if i < a.len() && j >= a.len() {
            assert(a.contains(a[i]));
            assert(b.contains(b[j - a.len()]));
        }
    }
}

/// Where one Pane goes.
#[derive(Clone, Copy, Debug, PartialEq, Eq, Structural)]
pub struct PaneRect {
    pub pane: PaneId,
    pub rect: Rect,
}

/// The line of cells between the halves of a split.
#[derive(Clone, Copy, Debug, PartialEq, Eq, Structural)]
pub struct Divider {
    pub dir: SplitDir,
    pub rect: Rect,
}

/// A layout tree laid out in an area.
#[derive(Debug)]
pub struct Layout {
    pub panes: Vec<PaneRect>,
    pub dividers: Vec<Divider>,
}

/// The cells that a split of `len` cells leaves to its halves: one goes to the
/// divider.
pub open spec fn split_room(len: u16) -> int {
    if len == 0 {
        0
    } else {
        len - 1
    }
}

/// The cells of the first half: its share of the room, rounded to nearest.
pub open spec fn first_share(len: u16, ratio: u16) -> int {
    let share: int = if ratio > 10000 {
        10000
    } else {
        ratio as int
    };
    (split_room(len) * share + 5000) / 10000
}

/// The area of the first half.
pub open spec fn first_area(area: Rect, dir: SplitDir, ratio: u16) -> Rect {
    match dir {
        SplitDir::Horizontal => Rect { w: first_share(area.w, ratio) as u16, ..area },
        SplitDir::Vertical => Rect { h: first_share(area.h, ratio) as u16, ..area },
    }
}

/// The cells between the halves.
pub open spec fn divider_area(area: Rect, dir: SplitDir, ratio: u16) -> Rect {
    match dir {
        SplitDir::Horizontal => Rect {
            x: (area.x + first_share(area.w, ratio)) as u16,
            w: (area.w - split_room(area.w)) as u16,
            ..area
        },
        SplitDir::Vertical => Rect {
            y: (area.y + first_share(area.h, ratio)) as u16,
            h: (area.h - split_room(area.h)) as u16,
            ..area
        },
    }
}

/// The area of the second half.
pub open spec fn second_area(area: Rect, dir: SplitDir, ratio: u16) -> Rect {
    match dir {
        SplitDir::Horizontal => Rect {
            x: (area.x + first_share(area.w, ratio) + area.w - split_room(area.w)) as u16,
            w: (split_room(area.w) - first_share(area.w, ratio)) as u16,
            ..area
        },
        SplitDir::Vertical => Rect {
            y: (area.y + first_share(area.h, ratio) + area.h - split_room(area.h)) as u16,
            h: (split_room(area.h) - first_share(area.h, ratio)) as u16,
            ..area
        },
    }
}

/// Where each Pane of `node` goes in `area`.
pub open spec fn rects(node: LayoutNode, area: Rect) -> Seq<PaneRect>
    decreases node,
{
    match node {
        LayoutNode::Leaf(pane) => seq![PaneRect { pane, rect: area }],
        LayoutNode::Split { dir, ratio, first, second } => rects(
            *first,
            first_area(area, dir, ratio),
        ) + rects(*second, second_area(area, dir, ratio)),
    }
}

/// The dividers of `node` in `area`, each before those of its halves.
pub open spec fn dividers(node: LayoutNode, area: Rect) -> Seq<Divider>
    decreases node,
{
    match node {
        LayoutNode::Leaf(_) => Seq::empty(),
        LayoutNode::Split { dir, ratio, first, second } => seq![
            Divider { dir, rect: divider_area(area, dir, ratio) },
        ] + dividers(*first, first_area(area, dir, ratio)) + dividers(
            *second,
            second_area(area, dir, ratio),
        ),
    }
}

proof fn lemma_first_share(len: u16, ratio: u16)
    ensures
        0 <= first_share(len, ratio) <= split_room(len) <= len,
        len > 0 ==> split_room(len) == len - 1,
{
    let room = split_room(len);
    let share: int = if ratio > 10000 {
        10000
    } else {
        ratio as int
    };
    assert(0 <= room * share <= room * 10000) by (nonlinear_arith)
        requires
            0 <= room,
            0 <= share <= 10000,
    ;
}

fn share_of(len: u16, ratio: u16) -> (first: u16)
    ensures
        first == first_share(len, ratio),
{
    proof {
        lemma_first_share(len, ratio);
    }
    let room: u64 = if len == 0 {
        0
    } else {
        (len - 1) as u64
    };
    let share: u64 = if ratio > 10000 {
        10000
    } else {
        ratio as u64
    };
    proof {
        assert(room * share <= 65535 * 10000) by (nonlinear_arith)
            requires
                room <= 65535,
                share <= 10000,
        ;
    }
    ((room * share + 5000) / 10000) as u16
}

impl Layout {
    /// The place of the first entry for `pane`.
    pub open spec fn place(panes: Seq<PaneRect>, pane: PaneId) -> Option<Rect>
        decreases panes.len(),
    {
        if panes.len() == 0 {
            None
        } else if panes[0].pane == pane {
            Some(panes[0].rect)
        } else {
            Layout::place(panes.drop_first(), pane)
        }
    }

    /// Where `pane` goes, if the layout shows it.
    pub fn rect_of(&self, pane: PaneId) -> (rect: Option<Rect>)
        ensures
            rect == Layout::place(self.panes@, pane),
    {
        let mut i: usize = 0;
        assert(self.panes@.skip(0) =~= self.panes@);
        while i < self.panes.len()
            invariant
                i <= self.panes@.len(),
                Layout::place(self.panes@, pane) == Layout::place(self.panes@.skip(i as int), pane),
            decreases self.panes@.len() - i,
        {
            if self.panes[i].pane == pane {
                return Some(self.panes[i].rect);
            }
            assert(self.panes@.skip(i as int).drop_first() =~= self.panes@.skip(i + 1));
            i += 1;
        }
        None
    }
}

impl LayoutNode {
    /// Lay the tree out in `area`.
    pub fn compute(&self, area: Rect) -> (layout: Layout)
        requires
            area.fits(),
        ensures
            layout.panes@ == rects(*self, area),
            layout.dividers@ == dividers(*self, area),
    {
        let mut layout = Layout { panes: Vec::new(), dividers: Vec::new() };
        self.place_in(area, &mut layout);
        assert(layout.panes@ =~= rects(*self, area));
        assert(layout.dividers@ =~= dividers(*self, area));
        layout
    }

    fn place_in(&self, area: Rect, layout: &mut Layout)
        requires
            area.fits(),
        ensures
            final(layout).panes@ == old(layout).panes@ + rects(*self, area),
            final(layout).dividers@ == old(layout).dividers@ + dividers(*self, area),
        decreases self,
    {
        match self {
            LayoutNode::Leaf(pane) => {
                layout.panes.push(PaneRect { pane: *pane, rect: area });
                assert(layout.panes@ =~= old(layout).panes@ + rects(*self, area));
                assert(layout.dividers@ =~= old(layout).dividers@ + dividers(*self, area));
            },
            LayoutNode::Split { dir, ratio, first, second } => {
                proof {
                    lemma_first_share(area.w, *ratio);
                    lemma_first_share(area.h, *ratio);
                }
                let (a, line, b) = match dir {
                    SplitDir::Horizontal => {
                        let len: u16 = share_of(area.w, *ratio);
                        let bar: u16 = if area.w == 0 {
                            0
                        } else {
                            1
                        };
                        (
                            Rect { x: area.x, y: area.y, w: len, h: area.h },
                            Rect { x: area.x + len, y: area.y, w: bar, h: area.h },
                            Rect {
                                x: area.x + len + bar,
                                y: area.y,
                                w: area.w - bar - len,
                                h: area.h,
                            },
                        )
                    },
                    SplitDir::Vertical => {
                        let len: u16 = share_of(area.h, *ratio);
                        let bar: u16 = if area.h == 0 {
                            0
                        } else {
                            1
                        };
                        (
                            Rect { x: area.x, y: area.y, w: area.w, h: len },
                            Rect { x: area.x, y: area.y + len, w: area.w, h: bar },
                            Rect {
                                x: area.x,
                                y: area.y + len + bar,
                                w: area.w,
                                h: area.h - bar - len,
                            },
                        )
                    },
                };
                assert(a == first_area(area, *dir, *ratio));
                assert(line == divider_area(area, *dir, *ratio));
                assert(b == second_area(area, *dir, *ratio));
                layout.dividers.push(Divider { dir: *dir, rect: line });
                first.place_in(a, layout);
                second.place_in(b, layout);
                assert(layout.panes@ =~= old(layout).panes@ + rects(*self, area));
                assert(layout.dividers@ =~= old(layout).dividers@ + dividers(*self, area));
            },
        }
    }
}

/// A layout lists its Panes in tree order.
pub proof fn lemma_rects_panes(node: LayoutNode, area: Rect)
    ensures
        rects(node, area).len() == node.panes().len(),
        forall|i: int|
            0 <= i < node.panes().len() ==> (#[trigger] rects(node, area)[i]).pane
                == node.panes()[i],
    decreases node,
{
    if let LayoutNode::Split { dir, ratio, first, second } = node {
        lemma_rects_panes(*first, first_area(area, dir, ratio));
        lemma_rects_panes(*second, second_area(area, dir, ratio));
    }
}

/// The halves and the divider of a split lie inside its area, side by side.
proof fn lemma_split_areas(area: Rect, dir: SplitDir, ratio: u16)
    requires
        area.fits(),
    ensures
        first_area(area, dir, ratio).inside(area),
        second_area(area, dir, ratio).inside(area),
        divider_area(area, dir, ratio).inside(area),
        first_area(area, dir, ratio).fits(),
        second_area(area, dir, ratio).fits(),
        divider_area(area, dir, ratio).fits(),
        first_area(area, dir, ratio).disjoint(second_area(area, dir, ratio)),
        divider_area(area, dir, ratio).disjoint(first_area(area, dir, ratio)),
        divider_area(area, dir, ratio).disjoint(second_area(area, dir, ratio)),
{
    lemma_first_share(area.w, ratio);
    lemma_first_share(area.h, ratio);
}

/// Every divider lies inside the area.
pub proof fn lemma_dividers_within(node: LayoutNode, area: Rect)
    requires
        area.fits(),
    ensures
        forall|i: int|
            0 <= i < dividers(node, area).len() ==> (#[trigger] dividers(node, area)[i]).rect.fits()
                && dividers(node, area)[i].rect.inside(area),
    decreases node,
{
    if let LayoutNode::Split { dir, ratio, first, second } = node {
        lemma_split_areas(area, dir, ratio);
        let left = dividers(*first, first_area(area, dir, ratio));
        let right = dividers(*second, second_area(area, dir, ratio));
        lemma_dividers_within(*first, first_area(area, dir, ratio));
        lemma_dividers_within(*second, second_area(area, dir, ratio));
        let all = dividers(node, area);
        assert(all == seq![Divider { dir, rect: divider_area(area, dir, ratio) }] + left + right);
        assert forall|i: int| 0 <= i < all.len() implies (#[trigger] all[i]).rect.fits()
            && all[i].rect.inside(area) by {
            if i == 0 {
            } else if i <= left.len() {
                assert(all[i] == left[i - 1]);
            } else {
                assert(all[i] == right[i - 1 - left.len()]);
            }
        }
    }
}

/// Every Pane is placed inside the area, and no cell belongs to two Panes.
pub proof fn lemma_rects_disjoint(node: LayoutNode, area: Rect)
    requires
        area.fits(),
    ensures
        forall|i: int|
            0 <= i < rects(node, area).len() ==> (#[trigger] rects(node, area)[i]).rect.inside(
                area,
            ),
        forall|i: int, j: int|
            0 <= i < j < rects(node, area).len() ==> (#[trigger] rects(node, area)[i]).rect.disjoint(
                (#[trigger] rects(node, area)[j]).rect,
            ),
    decreases node,
{
    if let LayoutNode::Split { dir, ratio, first, second } = node {
        let fa = first_area(area, dir, ratio);
        let sa = second_area(area, dir, ratio);
        lemma_split_areas(area, dir, ratio);
        lemma_rects_disjoint(*first, fa);
        lemma_rects_disjoint(*second, sa);
        let a = rects(*first, fa);
        let b = rects(*second, sa);
        assert(rects(node, area) == a + b);
        assert forall|i: int, j: int| 0 <= i < j < (a + b).len() implies (#[trigger] (a
            + b)[i]).rect.disjoint((#[trigger] (a + b)[j]).rect) by {
            if i < a.len() && j >= a.len() {
                let p = a[i].rect;
                let q = b[j - a.len()].rect;
                assert(p.inside(fa) && q.inside(sa));
                assert forall|cx: int, cy: int|
                    !(#[trigger] p.has_cell(cx, cy) && #[trigger] q.has_cell(cx, cy)) by {
                    if p.has_cell(cx, cy) && q.has_cell(cx, cy) {
                        assert(fa.has_cell(cx, cy) && sa.has_cell(cx, cy));
                    }
                }
            }
        }
    }
}

/// A layout without Pane identities, as the Workspace catalog stores it.
#[derive(Debug)]
pub enum WorkspaceLayoutDefinition {
    Pane,
    Split {
        dir: SplitDir,
        first_ratio: u16,
        first: Box<WorkspaceLayoutDefinition>,
        second: Box<WorkspaceLayoutDefinition>,
    },
}

/// A share that leaves something to both halves.
pub open spec fn bounded_ratio(ratio: u16) -> u16 {
    if ratio < MIN_RATIO {
        MIN_RATIO
    } else if ratio > MAX_RATIO {
        MAX_RATIO
    } else {
        ratio
    }
}

fn bound_ratio(ratio: u16) -> (out: u16)
    ensures
        out == bounded_ratio(ratio),
{
    if ratio < MIN_RATIO {
        MIN_RATIO
    } else if ratio > MAX_RATIO {
        MAX_RATIO
    } else {
        ratio
    }
}

/// The shape of a layout: its splits with bounded shares, and no identities.
pub open spec fn shape(node: LayoutNode) -> WorkspaceLayoutDefinition
    decreases node,
{
    match node {
        LayoutNode::Leaf(_) => WorkspaceLayoutDefinition::Pane,
        LayoutNode::Split { dir, ratio, first, second } => WorkspaceLayoutDefinition::Split {
            dir,
            first_ratio: bounded_ratio(ratio),
            first: Box::new(shape(*first)),
            second: Box::new(shape(*second)),
        },
    }
}

impl WorkspaceLayoutDefinition {
    /// The number of Panes the shape asks for.
    pub open spec fn leaves(self) -> nat
        decreases self,
    {
        match self {
            WorkspaceLayoutDefinition::Pane => 1,
            WorkspaceLayoutDefinition::Split { first, second, .. } => first.leaves()
                + second.leaves(),
        }
    }

    /// The shape with its leaves named after `ids`, in order.
    pub open spec fn named(self, ids: Seq<PaneId>) -> LayoutNode
        decreases self,
    {
        match self {
            WorkspaceLayoutDefinition::Pane => LayoutNode::Leaf(ids[0]),
            WorkspaceLayoutDefinition::Split { dir, first_ratio, first, second } =>
                LayoutNode::Split {
                dir,
                ratio: bounded_ratio(first_ratio),
                first: Box::new(first.named(ids)),
                second: Box::new(second.named(ids.skip(first.leaves() as int))),
            },
        }
    }

    /// Every share leaves something to both halves.
    pub open spec fn ratios_bounded(self) -> bool
        decreases self,
    {
        match self {
            WorkspaceLayoutDefinition::Pane => true,
            WorkspaceLayoutDefinition::Split { first_ratio, first, second, .. } => {
                &&& MIN_RATIO <= first_ratio <= MAX_RATIO
                &&& first.ratios_bounded()
                &&& second.ratios_bounded()
            },
        }
    }

    /// The number of Panes the shape asks for, where it can be counted.
    pub fn pane_count(&self) -> (count: Option<usize>)
        ensures
            count == if self.leaves() <= usize::MAX {
                Some(self.leaves() as usize)
            } else {
                None
            },
        decreases self,
    {
        match self {
            WorkspaceLayoutDefinition::Pane => Some(1),
            WorkspaceLayoutDefinition::Split { first, second, .. } => match (
                first.pane_count(),
                second.pane_count(),
            ) {
                (Some(a), Some(b)) => a.checked_add(b),
                _ => None,
            },
        }
    }
}

/// Remove volatile Pane identities from a live layout before it enters the
/// Workspace catalog.
pub fn workspace_layout_definition(layout: &LayoutNode) -> (definition: WorkspaceLayoutDefinition)
    ensures
        definition == shape(*layout),
    decreases layout,
{
    match layout {
        LayoutNode::Leaf(_) => WorkspaceLayoutDefinition::Pane,
        LayoutNode::Split { dir, ratio, first, second } => WorkspaceLayoutDefinition::Split {
            dir: *dir,
            first_ratio: bound_ratio(*ratio),
            first: Box::new(workspace_layout_definition(first)),
            second: Box::new(workspace_layout_definition(second)),
        },
    }
}

/// Assign Pane identities, taken from the front of `panes`, to an anonymous
/// catalog layout. `None` where they run out.
pub fn workspace_layout_with_panes(
    definition: &WorkspaceLayoutDefinition,
    panes: &mut VecDeque<PaneId>,
) -> (layout: Option<LayoutNode>)
    ensures
        layout is Some <==> old(panes)@.len() >= definition.leaves(),
        layout matches Some(node) ==> node == definition.named(old(panes)@) && final(panes)@
            == old(panes)@.skip(definition.leaves() as int),
        layout is None ==> final(panes)@.len() == 0,
    decreases definition,
{
    match definition {
        WorkspaceLayoutDefinition::Pane => match panes.pop_front() {
            Some(pane) => {
                assert(panes@ =~= old(panes)@.skip(1));
                Some(LayoutNode::Leaf(pane))
            },
            None => None,
        },
        WorkspaceLayoutDefinition::Split { dir, first_ratio, first, second } => {
            let Some(a) = workspace_layout_with_panes(first, panes) else {
                return None;
            };
            let Some(b) = workspace_layout_with_panes(second, panes) else {
                return None;
            };
            assert(panes@ =~= old(panes)@.skip(definition.leaves() as int));
            Some(
                LayoutNode::Split {
                    dir: *dir,
                    ratio: bound_ratio(*first_ratio),
                    first: Box::new(a),
                    second: Box::new(b),
                },
            )
        },
    }
}

/// A restored layout shows exactly the Panes it was given, in order, in the
/// stored shape.
pub proof fn lemma_restored_layout(definition: WorkspaceLayoutDefinition, ids: Seq<PaneId>)
    requires
        ids.len() >= definition.leaves(),
    ensures
        definition.named(ids).panes() == ids.take(definition.leaves() as int),
        definition.ratios_bounded() ==> shape(definition.named(ids)) == definition,
    decreases definition,
{
    match definition {
        WorkspaceLayoutDefinition::Pane => {
            assert(definition.named(ids).panes() =~= ids.take(1));
        },
        WorkspaceLayoutDefinition::Split { dir, first_ratio, first, second } => {
            let n = first.leaves() as int;
            lemma_restored_layout(*first, ids);
            lemma_restored_layout(*second, ids.skip(n));
            assert(definition.named(ids).panes() =~= ids.take(definition.leaves() as int));
        },
    }
}

/// Storing a layout and restoring it under its own Panes gives it back.
pub proof fn lemma_layout_round_trip(node: LayoutNode, more: Seq<PaneId>)
    requires
        ratios_within(node),
    ensures
        shape(node).leaves() == node.panes().len(),
        shape(node).named(node.panes() + more) == node,
    decreases node,
{
    match node {
        LayoutNode::Leaf(_) => {},
        LayoutNode::Split { dir, ratio, first, second } => {
            lemma_layout_round_trip(*first, second.panes() + more);
            lemma_layout_round_trip(*second, more);
            assert(node.panes() + more =~= first.panes() + (second.panes() + more));
            assert((node.panes() + more).skip(first.panes().len() as int) =~= second.panes()
                + more);
        },
    }
}

/// Every share of the tree leaves something to both halves.
pub open spec fn ratios_within(node: LayoutNode) -> bool
    decreases node,
{
    match node {
        LayoutNode::Leaf(_) => true,
        LayoutNode::Split { ratio, first, second, .. } => {
            &&& MIN_RATIO <= ratio <= MAX_RATIO
            &&& ratios_within(*first)
            &&& ratios_within(*second)
        },
    }
}

/// A split puts its halves side by side, or one above the other: every Pane of
/// the first half ends before every Pane of the second begins.
pub proof fn lemma_first_half_comes_first(
    dir: SplitDir,
    ratio: u16,
    first: LayoutNode,
    second: LayoutNode,
    area: Rect,
)
    requires
        area.fits(),
    ensures
        ({
            let node = LayoutNode::Split {
                dir,
                ratio,
                first: Box::new(first),
                second: Box::new(second),
            };
            let all = rects(node, area);
            let n = first.panes().len() as int;
            &&& all.len() == n + second.panes().len()
            &&& forall|i: int, j: int|
                0 <= i < n <= j < all.len() ==> {
                    &&& dir is Horizontal ==> (#[trigger] all[i]).rect.right() <= (
                    #[trigger] all[j]).rect.x
                    &&& dir is Vertical ==> all[i].rect.bottom() <= all[j].rect.y
                }
        }),
{
    let node = LayoutNode::Split { dir, ratio, first: Box::new(first), second: Box::new(second) };
    let fa = first_area(area, dir, ratio);
    let sa = second_area(area, dir, ratio);
    lemma_split_areas(area, dir, ratio);
    lemma_first_share(area.w, ratio);
    lemma_first_share(area.h, ratio);
    lemma_rects_panes(first, fa);
    lemma_rects_panes(second, sa);
    lemma_rects_disjoint(first, fa);
    lemma_rects_disjoint(second, sa);
    let a = rects(first, fa);
    let b = rects(second, sa);
    assert(rects(node, area) == a + b);
    assert forall|i: int, j: int| 0 <= i < a.len() <= j < (a + b).len() implies {
        &&& dir is Horizontal ==> (#[trigger] (a + b)[i]).rect.right() <= (#[trigger] (a
            + b)[j]).rect.x
        &&& dir is Vertical ==> (a + b)[i].rect.bottom() <= (a + b)[j].rect.y
    } by {
        assert(a[i].rect.inside(fa));
        assert(b[j - a.len()].rect.inside(sa));
    }
}

/// Every cell of the area belongs to a Pane or to a divider.
pub proof fn lemma_every_cell_is_used(node: LayoutNode, area: Rect, cx: int, cy: int)
    requires
        area.fits(),
        area.has_cell(cx, cy),
    ensures
        (exists|i: int|
            0 <= i < rects(node, area).len() && (#[trigger] rects(node, area)[i]).rect.has_cell(
                cx,
                cy,
            )) || (exists|i: int|
            0 <= i < dividers(node, area).len() && (#[trigger] dividers(
                node,
                area,
            )[i]).rect.has_cell(cx, cy)),
    decreases node,
{
    match node {
        LayoutNode::Leaf(_) => {
            assert(rects(node, area)[0].rect.has_cell(cx, cy));
        },
        LayoutNode::Split { dir, ratio, first, second } => {
            let fa = first_area(area, dir, ratio);
            let da = divider_area(area, dir, ratio);
            let sa = second_area(area, dir, ratio);
            lemma_split_areas(area, dir, ratio);
            lemma_first_share(area.w, ratio);
            lemma_first_share(area.h, ratio);
            let lines = dividers(node, area);
            let a = dividers(*first, fa);
            let b = dividers(*second, sa);
            assert(lines == seq![Divider { dir, rect: da }] + a + b);
            let all = rects(node, area);
            let p = rects(*first, fa);
            let q = rects(*second, sa);
            assert(all == p + q);
            if da.has_cell(cx, cy) {
                assert(lines[0].rect.has_cell(cx, cy));
            } else if fa.has_cell(cx, cy) {
                lemma_every_cell_is_used(*first, fa, cx, cy);
                if exists|i: int| 0 <= i < p.len() && (#[trigger] p[i]).rect.has_cell(cx, cy) {
                    let i = choose|i: int|
                        0 <= i < p.len() && (#[trigger] p[i]).rect.has_cell(cx, cy);
                    assert(all[i].rect.has_cell(cx, cy));
                } else {
                    let i = choose|i: int|
                        0 <= i < a.len() && (#[trigger] a[i]).rect.has_cell(cx, cy);
                    assert(lines[i + 1].rect.has_cell(cx, cy));
                }
            } else {
                assert(sa.has_cell(cx, cy));
                lemma_every_cell_is_used(*second, sa, cx, cy);
                if exists|i: int| 0 <= i < q.len() && (#[trigger] q[i]).rect.has_cell(cx, cy) {
                    let i = choose|i: int|
                        0 <= i < q.len() && (#[trigger] q[i]).rect.has_cell(cx, cy);
                    assert(all[i + p.len()].rect.has_cell(cx, cy));
                } else {
                    let i = choose|i: int|
                        0 <= i < b.len() && (#[trigger] b[i]).rect.has_cell(cx, cy);
                    assert(lines[i + 1 + a.len()].rect.has_cell(cx, cy));
                }
            }
        },
    }
}

/// Splitting a Pane divides its own room evenly and leaves every other Pane where
/// it was. Side by side, both halves keep the height and the new Pane is on the
/// right; one above the other, both keep the width and the new Pane is below.
pub proof fn lemma_split_divides_the_pane(
    node: LayoutNode,
    at: PaneId,
    dir: SplitDir,
    new: PaneId,
    area: Rect,
    k: int,
)
    requires
        area.fits(),
        node.panes().no_duplicates(),
        0 <= k < node.panes().len(),
        node.panes()[k] == at,
    ensures
        ({
            let old = rects(node, area);
            let out = rects(node.with_split(at, dir, new), area);
            let r = old[k].rect;
            let a = out[k].rect;
            let b = out[k + 1].rect;
            &&& out.len() == old.len() + 1
            &&& forall|j: int| 0 <= j < k ==> #[trigger] out[j] == old[j]
            &&& forall|j: int| k < j < old.len() ==> out[j + 1] == #[trigger] old[j]
            &&& old[k].pane == at
            &&& out[k].pane == at
            &&& out[k + 1].pane == new
            &&& dir is Horizontal ==> {
                &&& a.y == r.y && b.y == r.y && a.h == r.h && b.h == r.h
                &&& a.x == r.x
                &&& b.right() == r.right()
                &&& a.right() <= b.x
                &&& r.w > 0 ==> b.x == a.right() + 1
                &&& -1 <= a.w - b.w <= 1
            }
            &&& dir is Vertical ==> {
                &&& a.x == r.x && b.x == r.x && a.w == r.w && b.w == r.w
                &&& a.y == r.y
                &&& b.bottom() == r.bottom()
                &&& a.bottom() <= b.y
                &&& r.h > 0 ==> b.y == a.bottom() + 1
                &&& -1 <= a.h - b.h <= 1
            }
        }),
    decreases node,
{
    match node {
        LayoutNode::Leaf(id) => {
            lemma_first_share(area.w, EVEN_RATIO);
            lemma_first_share(area.h, EVEN_RATIO);
            reveal_with_fuel(rects, 3);
            let out = rects(node.with_split(at, dir, new), area);
            assert(out =~= seq![
                PaneRect { pane: at, rect: first_area(area, dir, EVEN_RATIO) },
                PaneRect { pane: new, rect: second_area(area, dir, EVEN_RATIO) },
            ]);
        },
        LayoutNode::Split { dir: d, ratio, first, second } => {
            let fa = first_area(area, d, ratio);
            let sa = second_area(area, d, ratio);
            lemma_split_areas(area, d, ratio);
            lemma_concat_distinct(first.panes(), second.panes());
            lemma_rects_panes(*first, fa);
            lemma_rects_panes(*second, sa);
            let p = rects(*first, fa);
            let q = rects(*second, sa);
            let old = rects(node, area);
            let out = rects(node.with_split(at, dir, new), area);
            assert(old == p + q);
            let n = first.panes().len() as int;
            if k < n {
                assert(first.panes()[k] == at);
                assert(first.panes().contains(at));
                assert(!second.panes().contains(at));
                lemma_with_split(*second, at, dir, new);
                lemma_split_divides_the_pane(*first, at, dir, new, fa, k);
                let grown = rects(first.with_split(at, dir, new), fa);
                assert(out == grown + q);
                assert forall|j: int| 0 <= j < k implies #[trigger] out[j] == old[j] by {
                    assert(grown[j] == p[j]);
                }
                assert forall|j: int| k < j < old.len() implies out[j + 1] == #[trigger] old[j] by {
                    if j < n {
                        assert(grown[j + 1] == p[j]);
                    }
                }
            } else {
                assert(second.panes()[k - n] == at);
                assert(second.panes().contains(at));
                assert(!first.panes().contains(at));
                lemma_with_split(*first, at, dir, new);
                lemma_split_divides_the_pane(*second, at, dir, new, sa, k - n);
                let grown = rects(second.with_split(at, dir, new), sa);
                assert(out == p + grown);
                assert forall|j: int| 0 <= j < k implies #[trigger] out[j] == old[j] by {
                    if j >= n {
                        assert(grown[j - n] == q[j - n]);
                    }
                }
                assert forall|j: int| k < j < old.len() implies out[j + 1] == #[trigger] old[j] by {
                    assert(grown[j - n + 1] == q[j - n]);
                }
            }
        },
    }
}

/// A larger share makes the first half no smaller and the second no larger: the
/// divider moves towards the end of the area, and by at least a cell for every
/// cell's worth of share.
pub proof fn lemma_share_moves_the_divider(area: Rect, dir: SplitDir, ratio: u16, more: u16)
    requires
        area.fits(),
        ratio <= more <= 10_000,
    ensures
        ({
            let d = divider_area(area, dir, ratio);
            let e = divider_area(area, dir, more);
            &&& d.w == e.w
            &&& d.h == e.h
            &&& dir is Horizontal ==> {
                &&& d.y == e.y
                &&& d.x <= e.x
                &&& area.w > 0 && (area.w - 1) * (more - ratio) >= 10_000 ==> d.x < e.x
            }
            &&& dir is Vertical ==> {
                &&& d.x == e.x
                &&& d.y <= e.y
                &&& area.h > 0 && (area.h - 1) * (more - ratio) >= 10_000 ==> d.y < e.y
            }
        }),
{
    lemma_first_share(area.w, ratio);
    lemma_first_share(area.h, ratio);
    lemma_first_share(area.w, more);
    lemma_first_share(area.h, more);
    lemma_share_grows(area.w, ratio, more);
    lemma_share_grows(area.h, ratio, more);
}

/// The divider of a split is listed before those of its halves.
pub proof fn lemma_divider_first(
    dir: SplitDir,
    ratio: u16,
    first: LayoutNode,
    second: LayoutNode,
    area: Rect,
)
    ensures
        ({
            let node = LayoutNode::Split {
                dir,
                ratio,
                first: Box::new(first),
                second: Box::new(second),
            };
            dividers(node, area)[0] == (Divider { dir, rect: divider_area(area, dir, ratio) })
        }),
{
}

proof fn lemma_share_grows(len: u16, ratio: u16, more: u16)
    requires
        ratio <= more <= 10_000,
    ensures
        first_share(len, ratio) <= first_share(len, more),
        len > 0 && (len - 1) * (more - ratio) >= 10_000 ==> first_share(len, ratio) < first_share(
            len,
            more,
        ),
{
    let room = split_room(len);
    let a = room * ratio;
    let b = room * more;
    assert(b - a == room * (more - ratio)) by (nonlinear_arith)
        requires
            a == room * ratio,
            b == room * more,
    ;
    assert(room * (more - ratio) >= 0) by (nonlinear_arith)
        requires
            room >= 0,
            more >= ratio,
    ;
}

} // verus!
