use std::collections::VecDeque;
use uniterm_server::layout::{
    workspace_layout_definition, workspace_layout_with_panes, LayoutNode,
};
use uniterm_server::projects::{tab_move_target, TabMoveDirection};
use uniterm_server::types::{PaneId, Rect, SplitDir};

#[test]
fn tab_move_target_is_a_no_op_for_one_tab_and_wraps() {
    assert_eq!(tab_move_target(1, 0, TabMoveDirection::Next), None);
    assert_eq!(tab_move_target(3, 0, TabMoveDirection::Previous), Some(2));
    assert_eq!(tab_move_target(3, 2, TabMoveDirection::Next), Some(0));
}

#[test]
fn workspace_layout_round_trip_replaces_only_pane_identities() {
    let layout = LayoutNode::Split {
        dir: SplitDir::Horizontal,
        ratio: 5500,
        first: Box::new(LayoutNode::Leaf(PaneId(1))),
        second: Box::new(LayoutNode::Split {
            dir: SplitDir::Vertical,
            ratio: 3500,
            first: Box::new(LayoutNode::Leaf(PaneId(2))),
            second: Box::new(LayoutNode::Leaf(PaneId(3))),
        }),
    };
    let definition = workspace_layout_definition(&layout);
    assert_eq!(definition.pane_count(), Some(3));

    let mut panes = VecDeque::from(vec![PaneId(10), PaneId(11), PaneId(12)]);
    let restored = workspace_layout_with_panes(&definition, &mut panes).unwrap();
    assert_eq!(panes.len(), 0);
    let geometry = restored.compute(Rect::new(0, 0, 101, 101));
    assert_eq!(geometry.rect_of(PaneId(10)).unwrap().w, 55);
    assert_eq!(geometry.rect_of(PaneId(11)).unwrap().h, 35);
    assert_eq!(geometry.rect_of(PaneId(12)).unwrap().h, 65);
    assert!(!restored.contains_pane(PaneId(1)));
}
