use telegram_client_rs::focus::{FocusController, FocusTarget};
use telegram_client_rs::pane_tree::{PaneNode, SplitDirection};

#[test]
fn cycling_forward_visits_the_leaves_and_then_the_list() {
    let mut tree = PaneNode::new_single(0);
    tree.split(0, SplitDirection::Vertical, 1);
    let leaves = tree.leaf_indices();
    let mut focus = FocusController::new(None, 2);
    assert_eq!(focus.focus_target(), FocusTarget::ExternalList);
    focus.cycle_forward(&leaves);
    assert_eq!(focus.focus_target(), FocusTarget::Leaf(0));
    focus.cycle_forward(&leaves);
    assert_eq!(focus.focus_target(), FocusTarget::Leaf(1));
    focus.cycle_forward(&leaves);
    assert_eq!(focus.focus_target(), FocusTarget::ExternalList);
    focus.cycle_forward(&leaves);
    assert_eq!(focus.focus_target(), FocusTarget::Leaf(0));
}

#[test]
fn cycling_backward_goes_the_other_way() {
    let leaves = vec![4, 2, 9];
    let mut focus = FocusController::new(None, 10);
    focus.cycle_backward(&leaves);
    assert_eq!(focus.focus_target(), FocusTarget::Leaf(9));
    focus.cycle_backward(&leaves);
    assert_eq!(focus.focus_target(), FocusTarget::Leaf(2));
    focus.cycle_backward(&leaves);
    assert_eq!(focus.focus_target(), FocusTarget::Leaf(4));
    focus.cycle_backward(&leaves);
    assert_eq!(focus.focus_target(), FocusTarget::ExternalList);
}

#[test]
fn a_current_pane_that_is_no_leaf_gives_way_forward_and_stays_backward() {
    let leaves = vec![4, 2];
    let mut focus = FocusController { focus_on_chat_list: false, focused_pane_idx: 7 };
    focus.cycle_backward(&leaves);
    assert_eq!(focus.focus_target(), FocusTarget::Leaf(7));
    focus.cycle_forward(&leaves);
    assert_eq!(focus.focus_target(), FocusTarget::Leaf(4));
}

#[test]
fn next_and_prev_wrap_around_and_skip_the_list() {
    let leaves = vec![4, 2, 9];
    let mut focus = FocusController { focus_on_chat_list: true, focused_pane_idx: 9 };
    assert!(focus.focus_next(&leaves));
    assert_eq!(focus.focus_target(), FocusTarget::Leaf(4));
    assert!(focus.focus_prev(&leaves));
    assert_eq!(focus.focus_target(), FocusTarget::Leaf(9));
    assert!(focus.focus_prev(&leaves));
    assert_eq!(focus.focus_target(), FocusTarget::Leaf(2));
}

#[test]
fn next_and_prev_do_nothing_with_fewer_than_two_leaves() {
    let mut focus = FocusController { focus_on_chat_list: true, focused_pane_idx: 0 };
    assert!(!focus.focus_next(&vec![0]));
    assert!(!focus.focus_prev(&vec![0]));
    assert!(!focus.focus_next(&vec![]));
    assert_eq!(focus.focus_target(), FocusTarget::ExternalList);
    let mut lost = FocusController { focus_on_chat_list: false, focused_pane_idx: 5 };
    assert!(!lost.focus_next(&vec![0, 1]));
    assert_eq!(lost.focus_target(), FocusTarget::Leaf(5));
}

#[test]
fn cycling_without_leaves_does_nothing() {
    let mut focus = FocusController::new(None, 1);
    focus.cycle_forward(&vec![]);
    focus.cycle_backward(&vec![]);
    assert_eq!(focus.focus_target(), FocusTarget::ExternalList);
}

#[test]
fn initial_focus_is_the_restored_pane_if_it_is_one() {
    assert_eq!(FocusController::new(Some(1), 2).focus_target(), FocusTarget::Leaf(1));
    assert_eq!(FocusController::new(Some(2), 2).focus_target(), FocusTarget::ExternalList);
    assert_eq!(FocusController::new(None, 2).focus_target(), FocusTarget::ExternalList);
}

#[test]
fn direct_assignment_sets_the_leaf() {
    let mut focus = FocusController::new(None, 2);
    focus.focus_leaf(1);
    assert_eq!(focus.focus_target(), FocusTarget::Leaf(1));
}
