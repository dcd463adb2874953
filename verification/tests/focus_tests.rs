use boxmux::focus::{first_selected_index, next_focus_index, previous_focus_index, select_only};

#[test]
fn focus_moves_forward_and_wraps() {
    assert_eq!(next_focus_index(&vec![false, true, false]), Some(2));
    assert_eq!(next_focus_index(&vec![false, false, true]), Some(0));
    assert_eq!(next_focus_index(&vec![true]), Some(0));
}

#[test]
fn focus_moves_backward_and_wraps() {
    assert_eq!(previous_focus_index(&vec![false, true, false]), Some(0));
    assert_eq!(previous_focus_index(&vec![true, false, false]), Some(2));
}

#[test]
fn focus_without_selection_starts_at_the_ends() {
    assert_eq!(next_focus_index(&vec![false, false, false]), Some(0));
    assert_eq!(previous_focus_index(&vec![false, false, false]), Some(2));
}

#[test]
fn focus_with_no_boxes_goes_nowhere() {
    assert_eq!(next_focus_index(&vec![]), None);
    assert_eq!(previous_focus_index(&vec![]), None);
}

#[test]
fn focus_uses_first_selected_box() {
    assert_eq!(first_selected_index(&vec![false, true, true]), Some(1));
    assert_eq!(first_selected_index(&vec![false, false]), None);
    assert_eq!(next_focus_index(&vec![false, true, true]), Some(2));
}

#[test]
fn focus_forward_then_back_returns() {
    let start = select_only(4, 3);
    assert_eq!(start, vec![false, false, false, true]);
    let next = next_focus_index(&start).unwrap();
    assert_eq!(next, 0);
    let after = select_only(4, next);
    assert_eq!(previous_focus_index(&after), Some(3));
}
