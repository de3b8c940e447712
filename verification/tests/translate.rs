use text_edit_core::encoding::Encoding;
use text_edit_core::translate::{
    locate, offset_from_utf16, offset_to_utf16, range_from_utf16, range_to_utf16,
    snap_to_boundary, Position,
};
use text_edit_core::utf8::{byte_length, on_boundary, same_text, slice_text, split_text};

const MIXED: &str = "a😀b";

#[test]
fn to_utf16_counts_an_emoji_as_two_units() {
    assert_eq!(offset_to_utf16(MIXED, 0), 0);
    assert_eq!(offset_to_utf16(MIXED, 1), 1);
    assert_eq!(offset_to_utf16(MIXED, 5), 3);
    assert_eq!(offset_to_utf16(MIXED, 6), 4);
}

#[test]
fn to_utf16_beyond_the_text_is_its_whole_width() {
    assert_eq!(offset_to_utf16(MIXED, 7), 4);
    assert_eq!(offset_to_utf16(MIXED, usize::MAX), 4);
    assert_eq!(offset_to_utf16("", 3), 0);
}

#[test]
fn to_utf16_inside_a_character_counts_that_character() {
    assert_eq!(offset_to_utf16(MIXED, 2), 3);
    assert_eq!(offset_to_utf16(MIXED, 4), 3);
}

#[test]
fn to_utf16_of_two_and_three_byte_characters() {
    let s = "é€x";
    assert_eq!(byte_length(s), 6);
    assert_eq!(offset_to_utf16(s, 2), 1);
    assert_eq!(offset_to_utf16(s, 5), 2);
    assert_eq!(offset_to_utf16(s, 6), 3);
}

#[test]
fn from_utf16_finds_the_character() {
    assert_eq!(offset_from_utf16(MIXED, 0), 0);
    assert_eq!(offset_from_utf16(MIXED, 1), 1);
    assert_eq!(offset_from_utf16(MIXED, 3), 5);
    assert_eq!(offset_from_utf16(MIXED, 4), 6);
}

#[test]
fn from_utf16_inside_a_surrogate_pair_goes_to_the_next_character() {
    assert_eq!(offset_from_utf16(MIXED, 2), 5);
}

#[test]
fn from_utf16_beyond_the_text_is_its_length() {
    assert_eq!(offset_from_utf16(MIXED, 5), 6);
    assert_eq!(offset_from_utf16(MIXED, usize::MAX), 6);
    assert_eq!(offset_from_utf16("", 0), 0);
    assert_eq!(offset_from_utf16("", 9), 0);
}

#[test]
fn utf16_round_trip_on_every_boundary() {
    for s in ["", "hello", MIXED, "é€x", "e\u{301}🇷🇺\r\n𝄞"] {
        for offset in 0..=s.len() {
            if s.is_char_boundary(offset) {
                assert_eq!(offset_from_utf16(s, offset_to_utf16(s, offset)), offset);
            }
        }
    }
}

#[test]
fn to_utf16_agrees_with_the_standard_encoder() {
    for s in ["hello", MIXED, "é€x", "e\u{301}🇷🇺\r\n𝄞"] {
        for offset in 0..=s.len() {
            if s.is_char_boundary(offset) {
                assert_eq!(offset_to_utf16(s, offset), s[..offset].encode_utf16().count());
            }
        }
    }
}

#[test]
fn range_conversions_convert_each_end() {
    assert_eq!(range_to_utf16(MIXED, &(1..5)), 1..3);
    assert_eq!(range_from_utf16(MIXED, &(1..3)), 1..5);
    assert_eq!(range_from_utf16(MIXED, &(0..40)), 0..6);
    assert_eq!(range_to_utf16(MIXED, &(6..6)), 4..4);
}

#[test]
fn locate_gives_both_offsets() {
    assert_eq!(locate(MIXED, Encoding::Utf8, 5), Position { bytes: 5, units: 3 });
    assert_eq!(locate(MIXED, Encoding::Utf16, 3), Position { bytes: 5, units: 3 });
    assert_eq!(locate(MIXED, Encoding::Utf16, 2), Position { bytes: 5, units: 3 });
    assert_eq!(locate(MIXED, Encoding::Utf8, 100), Position { bytes: 6, units: 4 });
    assert_eq!(locate(MIXED, Encoding::Utf8, 0), Position { bytes: 0, units: 0 });
}

#[test]
fn snap_to_boundary_keeps_a_boundary() {
    for offset in [0usize, 1, 5, 6] {
        assert_eq!(snap_to_boundary(MIXED, offset), offset);
    }
}

#[test]
fn snap_to_boundary_goes_back_to_the_start_of_a_character() {
    assert_eq!(snap_to_boundary(MIXED, 2), 1);
    assert_eq!(snap_to_boundary(MIXED, 3), 1);
    assert_eq!(snap_to_boundary(MIXED, 4), 1);
    assert_eq!(snap_to_boundary("é", 1), 0);
}

#[test]
fn snap_to_boundary_beyond_the_text_is_its_end() {
    assert_eq!(snap_to_boundary(MIXED, 7), 6);
    assert_eq!(snap_to_boundary(MIXED, usize::MAX), 6);
    assert_eq!(snap_to_boundary("", 4), 0);
}

#[test]
fn byte_length_counts_bytes() {
    assert_eq!(byte_length(""), 0);
    assert_eq!(byte_length("hello"), 5);
    assert_eq!(byte_length(MIXED), 6);
}

#[test]
fn on_boundary_tells_boundaries_from_the_inside_of_characters() {
    assert!(on_boundary(MIXED, 0));
    assert!(on_boundary(MIXED, 1));
    assert!(!on_boundary(MIXED, 2));
    assert!(!on_boundary(MIXED, 4));
    assert!(on_boundary(MIXED, 5));
    assert!(on_boundary(MIXED, 6));
    assert!(!on_boundary(MIXED, 7));
}

#[test]
fn split_and_slice_cut_at_boundaries() {
    assert_eq!(split_text(MIXED, 1), ("a", "😀b"));
    assert_eq!(split_text(MIXED, 0), ("", MIXED));
    assert_eq!(split_text(MIXED, 6), (MIXED, ""));
    assert_eq!(slice_text(MIXED, 1, 5), "😀");
    assert_eq!(slice_text(MIXED, 5, 5), "");
    assert_eq!(slice_text(MIXED, 0, 6), MIXED);
}

#[test]
fn same_text_compares_characters() {
    assert!(same_text("left", "left"));
    assert!(!same_text("left", "lefT"));
    assert!(!same_text("left", "lef"));
    assert!(same_text("", ""));
    assert!(!same_text("é", "e"));
}
