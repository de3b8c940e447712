//! The text buffer: the characters that a widget edits, addressed by byte
//! offsets that never split a character.

use crate::encoding::{
    byte_len, char_index, is_boundary, lemma_boundary_offset, lemma_chars_before_monotonic,
    lemma_length_concat, lemma_length_split, lemma_offset_is_boundary, splice, Encoding,
};
use crate::utf8::{byte_length, on_boundary, split_text};
use std::ops::Range;
use vstd::prelude::*;
use vstd::string::StringExecFns;

verus! {

/// Why an edit of the buffer was refused.
#[derive(Clone, Copy, Debug, PartialEq, Eq, Structural)]
pub enum BufferError {
    /// The range ends before it begins, reaches beyond the text, or
    /// splits a character.
    OutOfBounds,
}

/// True when `start..end` is a range of whole characters of `s`.
pub open spec fn is_valid_range(s: Seq<char>, start: int, end: int) -> bool {
    &&& start <= end
    &&& is_boundary(s, start)
    &&& is_boundary(s, end)
}

/// The length of a text after the range `start..end` of it was replaced.
pub proof fn lemma_splice_len(s: Seq<char>, start: int, end: int, t: Seq<char>)
    requires
        is_valid_range(s, start, end),
    ensures
        byte_len(splice(s, start, end, t)) == start + byte_len(t) + (byte_len(s) - end),
        is_boundary(splice(s, start, end, t), start),
        is_boundary(splice(s, start, end, t), start + byte_len(t)),
        start <= end <= byte_len(s),
{
    let e = Encoding::Utf8;
    let ks = char_index(s, start);
    let ke = char_index(s, end);
    let head = s.take(ks);
    let tail = s.skip(ke);
    let whole = splice(s, start, end, t);
    lemma_boundary_offset(e, s, start);
    lemma_boundary_offset(e, s, end);
    lemma_chars_before_monotonic(e, s, start, end);
    lemma_length_split(e, s, ke);
    lemma_length_concat(e, head, t);
    lemma_length_concat(e, head + t, tail);
    assert(whole.take(ks) =~= head);
    assert(whole.take(ks + t.len()) =~= head + t);
    lemma_offset_is_boundary(e, whole, ks);
    lemma_offset_is_boundary(e, whole, ks + t.len());
}

/// A growable text. Its view is the sequence of its characters.
pub struct TextBuffer {
    content: String,
}

impl View for TextBuffer {
    type V = Seq<char>;

    closed spec fn view(&self) -> Seq<char> {
        self.content@
    }
}

impl TextBuffer {
    /// The empty buffer.
    pub fn new() -> (buffer: Self)
        ensures
            buffer@ == Seq::<char>::empty(),
    {
        TextBuffer { content: String::new() }
    }

    /// A buffer that holds `text`.
    pub fn from_text(text: &str) -> (buffer: Self)
        ensures
            buffer@ == text@,
    {
        TextBuffer { content: String::from_str(text) }
    }

    /// Number of bytes of the text.
    pub fn length(&self) -> (n: usize)
        ensures
            n == byte_len(self@),
    {
        byte_length(self.content.as_str())
    }

    /// The text, borrowed.
    pub fn as_str(&self) -> (text: &str)
        ensures
            text@ == self@,
    {
        self.content.as_str()
    }

    /// A copy of the text.
    pub fn text(&self) -> (text: String)
        ensures
            text@ == self@,
    {
        self.content.clone()
    }

    /// Tells whether `offset` falls between two characters of the text,
    /// at its start or at its end.
    pub fn is_boundary(&self, offset: usize) -> (b: bool)
        ensures
            b == is_boundary(self@, offset as int),
    {
        on_boundary(self.content.as_str(), offset)
    }

    /// Tells whether `range` is a range of whole characters of the text.
    pub fn is_valid_range(&self, range: &Range<usize>) -> (b: bool)
        ensures
            b == is_valid_range(self@, range.start as int, range.end as int),
    {
        range.start <= range.end && self.is_boundary(range.start) && self.is_boundary(range.end)
    }

    /// Replaces the bytes of `range` by `text`. A range that is not one
    /// of whole characters of the buffer is refused, and the buffer
    /// stays as it is.
    pub fn replace(&mut self, range: Range<usize>, text: &str) -> (done: Result<(), BufferError>)
        ensures
            is_valid_range(old(self)@, range.start as int, range.end as int) ==> done is Ok
                && final(self)@ == splice(
                old(self)@,
                range.start as int,
                range.end as int,
                text@,
            ),
            !is_valid_range(old(self)@, range.start as int, range.end as int) ==> done == Err::<
                (),
                BufferError,
            >(BufferError::OutOfBounds) && final(self)@ == old(self)@,
    {
        match self.spliced(&range, text) {
            Ok(buffer) => {
                *self = buffer;
                Ok(())
            },
            Err(e) => Err(e),
        }
    }

    /// The buffer that `replace` would leave, as a buffer of its own.
    pub fn spliced(&self, range: &Range<usize>, text: &str) -> (done: Result<
        TextBuffer,
        BufferError,
    >)
        ensures
            match done {
                Ok(buffer) => is_valid_range(self@, range.start as int, range.end as int)
                    && buffer@ == splice(self@, range.start as int, range.end as int, text@),
                Err(e) => !is_valid_range(self@, range.start as int, range.end as int) && e
                    == BufferError::OutOfBounds,
            },
    {
        if !self.is_valid_range(range) {
            return Err(BufferError::OutOfBounds);
        }
        let (head, _) = split_text(self.content.as_str(), range.start);
        let (_, tail) = split_text(self.content.as_str(), range.end);
        let mut content = String::from_str(head);
        content.append(text);
        content.append(tail);
        Ok(TextBuffer { content })
    }
}

} // verus!
