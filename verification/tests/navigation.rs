use text_edit_core::navigation::{
    boundary_after, boundary_before, end_of_first_cluster, start_of_last_cluster,
};

#[test]
fn plain_letters_are_one_cluster_each() {
    assert_eq!(boundary_before("hello", 3), 2);
    assert_eq!(boundary_after("hello", 3), 4);
    assert_eq!(boundary_before("hello", 1), 0);
    assert_eq!(boundary_after("hello", 4), 5);
}

#[test]
fn the_ends_of_the_text_stop_the_caret() {
    assert_eq!(boundary_before("hello", 0), 0);
    assert_eq!(boundary_after("hello", 5), 5);
    assert_eq!(boundary_before("", 0), 0);
    assert_eq!(boundary_after("", 0), 0);
}

#[test]
fn right_passes_a_combining_sequence_in_one_step() {
    let s = "e\u{301}x";
    assert_eq!(boundary_after(s, 0), 3);
    assert_eq!(boundary_after(s, 3), 4);
}

#[test]
fn left_passes_a_combining_sequence_in_one_step() {
    let s = "xe\u{301}";
    assert_eq!(boundary_before(s, 4), 1);
    assert_eq!(boundary_before(s, 1), 0);
}

#[test]
fn a_flag_is_one_cluster() {
    let s = "🇷🇺🇸🇹";
    assert_eq!(boundary_after(s, 0), 8);
    assert_eq!(boundary_after(s, 8), 16);
    assert_eq!(boundary_before(s, 16), 8);
    assert_eq!(boundary_before(s, 8), 0);
}

#[test]
fn a_line_break_of_two_characters_is_one_cluster() {
    let s = "a\r\nb";
    assert_eq!(boundary_after(s, 1), 3);
    assert_eq!(boundary_before(s, 3), 1);
}

#[test]
fn a_joined_emoji_is_one_cluster() {
    let s = "👩\u{200d}👧!";
    assert_eq!(boundary_after(s, 0), 11);
    assert_eq!(boundary_before(s, 11), 0);
    assert_eq!(boundary_before(s, 12), 11);
}

#[test]
fn start_of_last_cluster_is_the_last_offset_or_zero() {
    assert_eq!(start_of_last_cluster(&vec![]), 0);
    assert_eq!(start_of_last_cluster(&vec![0]), 0);
    assert_eq!(start_of_last_cluster(&vec![0, 3, 7]), 7);
}

#[test]
fn end_of_first_cluster_is_the_second_offset_or_the_end() {
    assert_eq!(end_of_first_cluster(&vec![], 4, 9), 9);
    assert_eq!(end_of_first_cluster(&vec![0], 4, 9), 9);
    assert_eq!(end_of_first_cluster(&vec![0, 3], 4, 9), 7);
    assert_eq!(end_of_first_cluster(&vec![0, 2, 5], 4, 9), 6);
}
