use text_edit_core::buffer::{BufferError, TextBuffer};

#[test]
fn a_new_buffer_is_empty() {
    let b = TextBuffer::new();
    assert_eq!(b.length(), 0);
    assert_eq!(b.text(), "");
    assert_eq!(b.as_str(), "");
}

#[test]
fn from_text_holds_the_text() {
    let b = TextBuffer::from_text("a😀b");
    assert_eq!(b.length(), 6);
    assert_eq!(b.text(), "a😀b");
}

#[test]
fn is_boundary_knows_whole_characters() {
    let b = TextBuffer::from_text("a😀b");
    assert!(b.is_boundary(0));
    assert!(b.is_boundary(1));
    assert!(!b.is_boundary(3));
    assert!(b.is_boundary(6));
    assert!(!b.is_boundary(7));
    assert!(b.is_valid_range(&(1..5)));
    assert!(!b.is_valid_range(&(5..1)));
    assert!(!b.is_valid_range(&(1..4)));
}

#[test]
fn replace_splices_the_text_in() {
    let mut b = TextBuffer::from_text("hello");
    assert_eq!(b.replace(1..4, "ipp"), Ok(()));
    assert_eq!(b.text(), "hippo");
    assert_eq!(b.replace(5..5, "!"), Ok(()));
    assert_eq!(b.text(), "hippo!");
    assert_eq!(b.replace(0..0, ">"), Ok(()));
    assert_eq!(b.text(), ">hippo!");
    assert_eq!(b.replace(0..7, ""), Ok(()));
    assert_eq!(b.text(), "");
    assert_eq!(b.length(), 0);
}

#[test]
fn replace_changes_the_length_by_the_difference() {
    let mut b = TextBuffer::from_text("a😀b");
    assert_eq!(b.replace(1..5, "é"), Ok(()));
    assert_eq!(b.text(), "aéb");
    assert_eq!(b.length(), 4);
}

#[test]
fn replace_refuses_a_range_beyond_the_text() {
    let mut b = TextBuffer::from_text("hello");
    assert_eq!(b.replace(3..6, "x"), Err(BufferError::OutOfBounds));
    assert_eq!(b.replace(6..6, "x"), Err(BufferError::OutOfBounds));
    assert_eq!(b.text(), "hello");
}

#[test]
fn replace_refuses_a_range_that_ends_before_it_begins() {
    let mut b = TextBuffer::from_text("hello");
    assert_eq!(b.replace(4..2, "x"), Err(BufferError::OutOfBounds));
    assert_eq!(b.text(), "hello");
}

#[test]
fn replace_refuses_a_range_that_splits_a_character() {
    let mut b = TextBuffer::from_text("a😀b");
    assert_eq!(b.replace(1..3, "x"), Err(BufferError::OutOfBounds));
    assert_eq!(b.replace(2..5, "x"), Err(BufferError::OutOfBounds));
    assert_eq!(b.text(), "a😀b");
}

#[test]
fn spliced_leaves_the_buffer_alone() {
    let b = TextBuffer::from_text("hello");
    let c = b.spliced(&(0..1), "J").unwrap();
    assert_eq!(b.text(), "hello");
    assert_eq!(c.text(), "Jello");
    assert!(b.spliced(&(0..9), "J").is_err());
}
