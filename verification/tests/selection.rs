use text_edit_core::selection::SelectionRange;

#[test]
fn caret_at_is_a_plain_caret() {
    let s = SelectionRange::caret_at(4);
    assert_eq!(s, SelectionRange { start: 4, end: 4, reversed: false });
    assert!(s.is_empty());
    assert_eq!(s.cursor_offset(), 4);
}

#[test]
fn cursor_offset_is_start_when_reversed() {
    let s = SelectionRange { start: 2, end: 9, reversed: true };
    assert_eq!(s.cursor_offset(), 2);
    let s = SelectionRange { start: 2, end: 9, reversed: false };
    assert_eq!(s.cursor_offset(), 9);
    assert!(!s.is_empty());
}

#[test]
fn move_to_collapses_and_clears_direction() {
    let mut s = SelectionRange { start: 2, end: 9, reversed: true };
    s.move_to(5, 10);
    assert_eq!(s, SelectionRange { start: 5, end: 5, reversed: false });
}

#[test]
fn move_to_beyond_the_text_goes_to_its_end() {
    let mut s = SelectionRange::caret_at(0);
    s.move_to(99, 10);
    assert_eq!(s, SelectionRange { start: 10, end: 10, reversed: false });
    s.move_to(usize::MAX, 0);
    assert_eq!(s, SelectionRange { start: 0, end: 0, reversed: false });
}

#[test]
fn select_to_before_the_anchor_swaps_and_flips() {
    let mut s = SelectionRange::caret_at(5);
    s.select_to(2, 10);
    assert_eq!(s, SelectionRange { start: 2, end: 5, reversed: true });
    assert_eq!(s.cursor_offset(), 2);
}

#[test]
fn select_to_back_over_the_anchor_flips_again() {
    let mut s = SelectionRange { start: 2, end: 5, reversed: true };
    s.select_to(7, 10);
    assert_eq!(s, SelectionRange { start: 5, end: 7, reversed: false });
    assert_eq!(s.cursor_offset(), 7);
}

#[test]
fn select_to_moves_the_caret_end_only() {
    let mut s = SelectionRange { start: 3, end: 6, reversed: false };
    s.select_to(8, 10);
    assert_eq!(s, SelectionRange { start: 3, end: 8, reversed: false });
    let mut s = SelectionRange { start: 3, end: 6, reversed: true };
    s.select_to(1, 10);
    assert_eq!(s, SelectionRange { start: 1, end: 6, reversed: true });
}

#[test]
fn select_to_the_anchor_keeps_the_direction() {
    let mut s = SelectionRange { start: 3, end: 6, reversed: true };
    s.select_to(6, 10);
    assert_eq!(s, SelectionRange { start: 6, end: 6, reversed: true });
    let mut s = SelectionRange { start: 3, end: 6, reversed: false };
    s.select_to(3, 10);
    assert_eq!(s, SelectionRange { start: 3, end: 3, reversed: false });
}

#[test]
fn select_to_beyond_the_text_stops_at_its_end() {
    let mut s = SelectionRange::caret_at(4);
    s.select_to(1000, 10);
    assert_eq!(s, SelectionRange { start: 4, end: 10, reversed: false });
}

#[test]
fn select_all_covers_the_text_forwards() {
    let mut s = SelectionRange { start: 3, end: 6, reversed: true };
    s.select_all(12);
    assert_eq!(s, SelectionRange { start: 0, end: 12, reversed: false });
}

#[test]
fn selection_stays_ordered_over_many_calls() {
    let len = 9;
    let mut s = SelectionRange::caret_at(4);
    for offset in [0usize, 9, 3, 4, 20, 1, 8, 8, 0, 5] {
        s.select_to(offset, len);
        assert!(s.start <= s.end && s.end <= len);
        assert_eq!(s.cursor_offset(), offset.min(len));
    }
}
