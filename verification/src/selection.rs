//! The selection model: a range of the text with a direction, and the
//! caret that it stands for.

use vstd::prelude::*;

verus! {

/// A selected range of bytes. The caret is at `start` when the selection
/// is `reversed`, at `end` otherwise; the other end is the anchor, where
/// the selection was begun. A range with `start == end` is a plain caret.
#[derive(Clone, Copy, Debug, PartialEq, Eq, Structural)]
pub struct SelectionRange {
    /// Where the selection begins.
    pub start: usize,
    /// Where the selection ends.
    pub end: usize,
    /// Whether the selection was made backwards.
    pub reversed: bool,
}

/// The smaller of two offsets.
pub open spec fn min_offset(a: usize, b: usize) -> usize {
    if a <= b {
        a
    } else {
        b
    }
}

/// The larger of two offsets.
pub open spec fn max_offset(a: usize, b: usize) -> usize {
    if a <= b {
        b
    } else {
        a
    }
}

impl SelectionRange {
    /// True when the selection lies in a text of `len` bytes.
    pub open spec fn in_bounds(self, len: int) -> bool {
        self.start <= self.end <= len
    }

    /// The end of the selection that moves.
    pub open spec fn caret(self) -> usize {
        if self.reversed {
            self.start
        } else {
            self.end
        }
    }

    /// The end of the selection that stays.
    pub open spec fn anchor(self) -> usize {
        if self.reversed {
            self.end
        } else {
            self.start
        }
    }

    /// The plain caret at `offset`.
    pub open spec fn collapsed(offset: usize) -> SelectionRange {
        SelectionRange { start: offset, end: offset, reversed: false }
    }

    /// The selection after its caret went to `offset`: the anchor stays,
    /// and the selection is reversed when the caret is before the anchor.
    /// A caret on the anchor leaves the direction as it was.
    pub open spec fn extended(self, offset: usize) -> SelectionRange {
        SelectionRange {
            start: min_offset(self.anchor(), offset),
            end: max_offset(self.anchor(), offset),
            reversed: if offset < self.anchor() {
                true
            } else if self.anchor() < offset {
                false
            } else {
                self.reversed
            },
        }
    }

    /// The plain caret at `offset`.
    pub fn caret_at(offset: usize) -> (selection: Self)
        ensures
            selection == Self::collapsed(offset),
    {
        SelectionRange { start: offset, end: offset, reversed: false }
    }

    /// Where the caret is: `start` if the selection is reversed, else
    /// `end`.
    pub fn cursor_offset(&self) -> (offset: usize)
        ensures
            offset == self.caret(),
    {
        if self.reversed {
            self.start
        } else {
            self.end
        }
    }

    /// Tells whether nothing is selected.
    pub fn is_empty(&self) -> (b: bool)
        ensures
            b == (self.start >= self.end),
    {
        self.start >= self.end
    }

    /// Makes the selection a plain caret at `offset`, or at the end of
    /// the text, `len`, where `offset` is beyond it.
    pub fn move_to(&mut self, offset: usize, len: usize)
        ensures
            *final(self) == Self::collapsed(min_offset(offset, len)),
            final(self).in_bounds(len as int),
    {
        let at = if offset <= len {
            offset
        } else {
            len
        };
        self.start = at;
        self.end = at;
        self.reversed = false;
    }

    /// Takes the caret to `offset`, or to the end of the text, `len`,
    /// where `offset` is beyond it, and leaves the anchor where it is.
    /// When the caret passes the anchor the two ends change places and
    /// the direction flips.
    pub fn select_to(&mut self, offset: usize, len: usize)
        requires
            old(self).in_bounds(len as int),
        ensures
            *final(self) == old(self).extended(min_offset(offset, len)),
            final(self).in_bounds(len as int),
            final(self).caret() == min_offset(offset, len),
            final(self).anchor() == old(self).anchor(),
    {
        let at = if offset <= len {
            offset
        } else {
            len
        };
        if self.reversed {
            self.start = at;
        } else {
            self.end = at;
        }
        if self.end < self.start {
            let start = self.start;
            self.reversed = !self.reversed;
            self.start = self.end;
            self.end = start;
        }
    }

    /// Selects the whole text of `len` bytes, forwards.
    pub fn select_all(&mut self, len: usize)
        ensures
            *final(self) == (SelectionRange { start: 0, end: len, reversed: false }),
            final(self).in_bounds(len as int),
    {
        self.start = 0;
        self.end = len;
        self.reversed = false;
    }
}

} // verus!
