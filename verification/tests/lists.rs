//! List selection state.

use reticula::screens::ListState;

#[test]
fn clamp_never_moves_selection() {
    let mut s = ListState { selected: 2, scroll: 0 };
    s.clamp(5);
    // Clamping to a larger list must not advance the selection.
    assert_eq!(s.selected, 2);
}

#[test]
fn clamp_bounds_selection_to_shrunk_list() {
    let mut s = ListState { selected: 4, scroll: 3 };
    s.clamp(2);
    assert_eq!(s.selected, 1);
}

#[test]
fn clamp_resets_for_empty_list() {
    let mut s = ListState { selected: 3, scroll: 2 };
    s.clamp(0);
    assert_eq!(s.selected, 0);
    assert_eq!(s.scroll, 0);
}

#[test]
fn moves_stop_at_the_ends() {
    let mut s = ListState::default();
    s.move_up();
    assert_eq!(s.selected, 0);
    s.move_down(2);
    s.move_down(2);
    assert_eq!(s.selected, 1);
    s.move_down(0);
    assert_eq!(s.selected, 1);
    s.move_up();
    assert_eq!(s.selected, 0);
}

#[test]
fn keep_visible_scrolls_to_the_selection() {
    let mut s = ListState { selected: 7, scroll: 0 };
    s.keep_visible(3);
    assert_eq!(s.scroll, 5);
    s.selected = 2;
    s.keep_visible(3);
    assert_eq!(s.scroll, 2);
    s.selected = 3;
    s.keep_visible(3);
    assert_eq!(s.scroll, 2);
}
