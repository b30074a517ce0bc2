use telegram_client_rs::geometry::Rect;
use telegram_client_rs::layout::allocate;
use telegram_client_rs::pane_tree::{PaneNode, SplitDirection};

fn two_verticals() -> PaneNode {
    let mut tree = PaneNode::new_single(0);
    assert!(tree.split(0, SplitDirection::Vertical, 1));
    assert!(tree.split(0, SplitDirection::Vertical, 2));
    tree
}

#[test]
fn split_single_leaf_gives_two_leaves_in_order() {
    let mut tree = PaneNode::new_single(0);
    assert!(tree.split(0, SplitDirection::Vertical, 1));
    assert_eq!(tree.leaf_indices(), vec![0, 1]);
    assert_eq!(tree.count_leaves(), 2);
    let map = allocate(&tree, Rect::new(0, 0, 100, 40));
    assert_eq!(map.get(0), Some(Rect { x: 0, y: 0, width: 50, height: 40 }));
    assert_eq!(map.get(1), Some(Rect { x: 50, y: 0, width: 50, height: 40 }));
}

#[test]
fn remove_middle_leaf_collapses_parent() {
    let mut tree = two_verticals();
    assert_eq!(tree.leaf_indices(), vec![0, 2, 1]);
    assert!(tree.remove_leaf(2));
    let mut expected = PaneNode::new_single(0);
    expected.split(0, SplitDirection::Vertical, 1);
    assert_eq!(tree, expected);
    assert!(tree.is_well_formed());
}

#[test]
fn split_adds_one_leaf_right_behind_the_target() {
    let mut tree = two_verticals();
    let before = tree.count_leaves();
    assert!(tree.split(2, SplitDirection::Horizontal, 7));
    assert_eq!(tree.count_leaves(), before + 1);
    assert_eq!(tree.leaf_indices(), vec![0, 2, 7, 1]);
    let sevens = tree.leaf_indices().iter().filter(|&&p| p == 7).count();
    assert_eq!(sevens, 1);
}

#[test]
fn split_of_a_missing_leaf_changes_nothing() {
    let mut tree = two_verticals();
    let before = tree.clone();
    assert!(!tree.split(9, SplitDirection::Horizontal, 7));
    assert_eq!(tree, before);
}

#[test]
fn split_nests_under_the_parent() {
    let mut tree = PaneNode::new_single(0);
    tree.split(0, SplitDirection::Vertical, 1);
    tree.split(1, SplitDirection::Vertical, 2);
    assert_eq!(
        tree,
        PaneNode::Split {
            direction: SplitDirection::Vertical,
            children: vec![
                PaneNode::Single(0),
                PaneNode::Split {
                    direction: SplitDirection::Vertical,
                    children: vec![PaneNode::Single(1), PaneNode::Single(2)],
                },
            ],
        }
    );
}

#[test]
fn remove_takes_one_leaf_and_keeps_splits_at_two_children() {
    let mut tree = two_verticals();
    tree.split(1, SplitDirection::Horizontal, 3);
    let before = tree.count_leaves();
    assert!(tree.remove_leaf(1));
    assert_eq!(tree.count_leaves(), before - 1);
    assert!(!tree.contains_leaf(1));
    assert_eq!(tree.leaf_indices(), vec![0, 2, 3]);
    assert!(tree.is_well_formed());
}

#[test]
fn remove_from_a_single_leaf_or_of_a_missing_leaf_changes_nothing() {
    let mut single = PaneNode::new_single(4);
    assert!(!single.remove_leaf(4));
    assert_eq!(single, PaneNode::new_single(4));
    let mut tree = two_verticals();
    let before = tree.clone();
    assert!(!tree.remove_leaf(9));
    assert_eq!(tree, before);
}

#[test]
fn remove_from_three_children_keeps_the_split() {
    let mut tree = PaneNode::Split {
        direction: SplitDirection::Horizontal,
        children: vec![PaneNode::Single(0), PaneNode::Single(1), PaneNode::Single(2)],
    };
    assert!(tree.remove_leaf(1));
    assert_eq!(
        tree,
        PaneNode::Split {
            direction: SplitDirection::Horizontal,
            children: vec![PaneNode::Single(0), PaneNode::Single(2)],
        }
    );
}

#[test]
fn toggle_axis_twice_gives_the_tree_back() {
    let mut tree = two_verticals();
    let before = tree.clone();
    assert!(tree.toggle_axis(2));
    assert_ne!(tree, before);
    assert_eq!(tree.leaf_indices(), before.leaf_indices());
    assert!(tree.toggle_axis(2));
    assert_eq!(tree, before);
}

#[test]
fn toggle_axis_flips_the_split_that_holds_the_leaf_directly() {
    let mut tree = two_verticals();
    assert!(tree.toggle_axis(1));
    assert_eq!(
        tree,
        PaneNode::Split {
            direction: SplitDirection::Horizontal,
            children: vec![
                PaneNode::Split {
                    direction: SplitDirection::Vertical,
                    children: vec![PaneNode::Single(0), PaneNode::Single(2)],
                },
                PaneNode::Single(1),
            ],
        }
    );
    assert!(tree.toggle_axis(0));
    assert_eq!(
        tree,
        PaneNode::Split {
            direction: SplitDirection::Horizontal,
            children: vec![
                PaneNode::Split {
                    direction: SplitDirection::Horizontal,
                    children: vec![PaneNode::Single(0), PaneNode::Single(2)],
                },
                PaneNode::Single(1),
            ],
        }
    );
}

#[test]
fn toggle_axis_on_a_single_leaf_does_nothing() {
    let mut tree = PaneNode::new_single(0);
    assert!(!tree.toggle_axis(0));
    assert_eq!(tree, PaneNode::new_single(0));
    let mut other = two_verticals();
    assert!(!other.toggle_axis(9));
}

#[test]
fn validity_asks_for_distinct_leaves_within_the_store() {
    let tree = two_verticals();
    assert!(tree.is_valid(3));
    assert!(!tree.is_valid(2));
    let twice = PaneNode::Split {
        direction: SplitDirection::Vertical,
        children: vec![PaneNode::Single(0), PaneNode::Single(0)],
    };
    assert!(!twice.is_valid(3));
    let lonely = PaneNode::Split {
        direction: SplitDirection::Vertical,
        children: vec![PaneNode::Single(0)],
    };
    assert!(!lonely.is_valid(3));
    assert!(!lonely.is_well_formed());
}

#[test]
fn layout_gives_the_remainder_to_the_last_child() {
    let tree = PaneNode::Split {
        direction: SplitDirection::Vertical,
        children: vec![PaneNode::Single(0), PaneNode::Single(1), PaneNode::Single(2)],
    };
    let map = allocate(&tree, Rect::new(10, 5, 100, 40));
    assert_eq!(map.len(), 3);
    assert_eq!(map.get(0), Some(Rect { x: 10, y: 5, width: 33, height: 40 }));
    assert_eq!(map.get(1), Some(Rect { x: 43, y: 5, width: 33, height: 40 }));
    assert_eq!(map.get(2), Some(Rect { x: 76, y: 5, width: 34, height: 40 }));
    assert_eq!(map.get(3), None);
}

#[test]
fn layout_tiles_the_rectangle() {
    let mut tree = two_verticals();
    tree.split(1, SplitDirection::Horizontal, 3);
    tree.split(2, SplitDirection::Horizontal, 4);
    let rect = Rect::new(3, 2, 31, 17);
    let map = allocate(&tree, rect);
    for x in 0..40u16 {
        for y in 0..25u16 {
            let holders = map.rects.values().filter(|r| r.contains(x, y)).count();
            let expected = if rect.contains(x, y) { 1 } else { 0 };
            assert_eq!(holders, expected);
            assert_eq!(map.pane_at(x, y).is_some(), rect.contains(x, y));
        }
    }
    let mut panes: Vec<usize> = map.rects.keys().copied().collect();
    panes.sort();
    assert_eq!(panes, vec![0, 1, 2, 3, 4]);
    assert_eq!(map.len(), tree.count_leaves());
}

#[test]
fn layout_splits_rows_for_a_horizontal_split() {
    let mut tree = PaneNode::new_single(0);
    tree.split(0, SplitDirection::Horizontal, 1);
    let map = allocate(&tree, Rect::new(0, 0, 80, 25));
    assert_eq!(map.get(0), Some(Rect { x: 0, y: 0, width: 80, height: 12 }));
    assert_eq!(map.get(1), Some(Rect { x: 0, y: 12, width: 80, height: 13 }));
}

#[test]
fn pointer_finds_the_pane_under_it() {
    let mut tree = PaneNode::new_single(0);
    tree.split(0, SplitDirection::Vertical, 1);
    let map = allocate(&tree, Rect::new(0, 0, 100, 40));
    assert_eq!(map.pane_at(49, 39), Some(0));
    assert_eq!(map.pane_at(50, 0), Some(1));
    assert_eq!(map.pane_at(100, 0), None);
    assert_eq!(map.pane_at(0, 40), None);
}

#[test]
fn rectangle_is_cut_off_at_the_edge_of_the_screen() {
    let rect = Rect::new(65530, 0, 100, 10);
    assert_eq!(rect, Rect { x: 65530, y: 0, width: 5, height: 10 });
    let map = allocate(&PaneNode::new_single(0), Rect { x: 65530, y: 0, width: 100, height: 10 });
    assert_eq!(map.get(0), Some(rect));
}

#[test]
fn empty_rectangle_gives_empty_tiles() {
    let mut tree = PaneNode::new_single(0);
    tree.split(0, SplitDirection::Vertical, 1);
    let map = allocate(&tree, Rect::new(0, 0, 0, 0));
    assert_eq!(map.get(0), Some(Rect { x: 0, y: 0, width: 0, height: 0 }));
    assert_eq!(map.pane_at(0, 0), None);
}
