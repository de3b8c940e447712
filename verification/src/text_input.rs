//! The single-line text input: a buffer with a selection and a
//! composition, the keys and pointer positions that edit it, and the
//! protocol by which an input method reads and edits it.

use crate::buffer::{is_valid_range, lemma_splice_len, TextBuffer};
use crate::encoding::{
    byte_len, from_utf16, is_boundary, lemma_boundary_offset, lemma_convert_monotonic,
    lemma_ends_are_boundaries, lemma_from_utf16_past_end, lemma_utf16_not_longer, slice, splice,
    to_utf16, Encoding,
};
use crate::event::{Modifiers, PointerHit, Update, UpdateView};
use crate::navigation::{boundary_after, boundary_before};
use crate::selection::SelectionRange;
use crate::state::{range, EditState, LineMode};
use crate::translate::{
    lemma_floor_of_boundary, lemma_floor_past_end, offset_from_utf16, offset_to_utf16,
    range_from_utf16, range_to_utf16, snap_to_boundary,
};
use crate::utf8::{byte_length, same_text, slice_text};
use std::ops::Range;
use vstd::prelude::*;
use vstd::string::StringExecFns;

verus! {

/// The selection as an input method sees it: in UTF-16 code units.
#[derive(Debug, PartialEq, Eq)]
pub struct Utf16Selection {
    /// The selected range, in UTF-16 code units.
    pub range: Range<usize>,
    /// Whether the caret is at the start of the range.
    pub reversed: bool,
}

/// An editable text with a selection. Its view is its `EditState`, which
/// is well formed at all times.
pub struct TextInput {
    buffer: TextBuffer,
    placeholder: String,
    selection: SelectionRange,
    marked_range: Option<Range<usize>>,
    is_selecting: bool,
    mode: LineMode,
}

impl View for TextInput {
    type V = EditState;

    closed spec fn view(&self) -> EditState {
        EditState {
            text: self.buffer@,
            selection: self.selection,
            marked: self.marked_range,
            selecting: self.is_selecting,
            mode: self.mode,
        }
    }
}

impl TextInput {
    #[verifier::type_invariant]
    spec fn inv(self) -> bool {
        self@.wf()
    }

    /// The text shown while the input is empty.
    pub closed spec fn placeholder_text(&self) -> Seq<char> {
        self.placeholder@
    }

    /// An empty single-line input.
    pub fn new(placeholder: &str) -> (input: Self)
        ensures
            input@ == EditState::init(LineMode::SingleLine),
            input@.wf(),
            input.placeholder_text() == placeholder@,
    {
        Self::with_mode(placeholder, LineMode::SingleLine)
    }

    /// An empty input in which "enter" does what `mode` says.
    pub fn with_mode(placeholder: &str, mode: LineMode) -> (input: Self)
        ensures
            input@ == EditState::init(mode),
            input@.wf(),
            input.placeholder_text() == placeholder@,
    {
        proof {
            lemma_ends_are_boundaries(Encoding::Utf8, Seq::<char>::empty());
        }
        TextInput {
            buffer: TextBuffer::new(),
            placeholder: String::from_str(placeholder),
            selection: SelectionRange::caret_at(0),
            marked_range: None,
            is_selecting: false,
            mode,
        }
    }

    /// Replaces the whole text and puts the caret at its end. A
    /// composition does not outlive the text it was made in.
    pub fn set_text(&mut self, text: &str) -> (update: Update)
        ensures
            final(self)@ == old(self)@.set_text(text@),
            final(self)@.wf(),
            final(self).placeholder_text() == old(self).placeholder_text(),
            update@ == UpdateView::text_changed(text@),
    {
        let len = byte_length(text);
        proof {
            use_type_invariant(&*self);
            lemma_ends_are_boundaries(Encoding::Utf8, self.buffer@);
            lemma_ends_are_boundaries(Encoding::Utf8, text@);
        }
        let reversed = self.selection.reversed;
        self.marked_range = None;
        self.selection = SelectionRange::caret_at(0);
        self.buffer = TextBuffer::from_text(text);
        self.selection = SelectionRange { start: len, end: len, reversed };
        Update::text_changed(String::from_str(text))
    }

    /// A copy of the text.
    pub fn text(&self) -> (text: String)
        ensures
            text@ == self@.text,
    {
        self.buffer.text()
    }

    /// The text shown while the input is empty.
    pub fn placeholder(&self) -> (text: &str)
        ensures
            text@ == self.placeholder_text(),
    {
        self.placeholder.as_str()
    }

    /// Number of bytes of the text.
    pub fn len(&self) -> (n: usize)
        ensures
            n == byte_len(self@.text),
    {
        self.buffer.length()
    }

    /// What "enter" does.
    pub fn mode(&self) -> (mode: LineMode)
        ensures
            mode == self@.mode,
    {
        self.mode
    }

    /// The selected bytes.
    pub fn selected_range(&self) -> (r: Range<usize>)
        ensures
            r.start == self@.selection.start,
            r.end == self@.selection.end,
            self@.wf(),
    {
        proof {
            use_type_invariant(self);
        }
        self.selection.start..self.selection.end
    }

    /// The selection: its range and its direction.
    pub fn selection(&self) -> (selection: SelectionRange)
        ensures
            selection == self@.selection,
            self@.wf(),
    {
        proof {
            use_type_invariant(self);
        }
        self.selection
    }

    /// The bytes that an input method is composing, if any.
    pub fn marked_range(&self) -> (r: Option<Range<usize>>)
        ensures
            r == self@.marked,
            self@.wf(),
    {
        proof {
            use_type_invariant(self);
        }
        match &self.marked_range {
            Some(r) => Some(r.start..r.end),
            None => None,
        }
    }

    /// Whether a mouse button is held and the pointer drags the caret.
    pub fn is_selecting(&self) -> (b: bool)
        ensures
            b == self@.selecting,
    {
        self.is_selecting
    }

    /// Where the caret is: at the start of the selection if it is
    /// reversed, else at its end.
    pub fn cursor_offset(&self) -> (offset: usize)
        ensures
            offset == self@.cursor(),
            is_boundary(self@.text, offset as int),
            offset <= byte_len(self@.text),
    {
        proof {
            use_type_invariant(self);
            lemma_boundary_offset(
                Encoding::Utf8,
                self@.text,
                self.selection.end as int,
            );
        }
        self.selection.cursor_offset()
    }

    /// The UTF-16 offset that stands for the byte offset `offset`.
    pub fn offset_to_utf16(&self, offset: usize) -> (units: usize)
        ensures
            units == to_utf16(self@.text, offset as int),
    {
        offset_to_utf16(self.buffer.as_str(), offset)
    }

    /// The byte offset that stands for the UTF-16 offset `units`.
    pub fn offset_from_utf16(&self, units: usize) -> (offset: usize)
        ensures
            offset == from_utf16(self@.text, units as int),
            is_boundary(self@.text, offset as int),
    {
        offset_from_utf16(self.buffer.as_str(), units)
    }

    /// Both ends of a byte range, each as a UTF-16 offset.
    pub fn range_to_utf16(&self, r: &Range<usize>) -> (units: Range<usize>)
        ensures
            units.start == to_utf16(self@.text, r.start as int),
            units.end == to_utf16(self@.text, r.end as int),
    {
        range_to_utf16(self.buffer.as_str(), r)
    }

    /// Both ends of a UTF-16 range, each as a byte offset.
    pub fn range_from_utf16(&self, r: &Range<usize>) -> (bytes: Range<usize>)
        ensures
            bytes.start == from_utf16(self@.text, r.start as int),
            bytes.end == from_utf16(self@.text, r.end as int),
            r.start <= r.end ==> is_valid_range(
                self@.text,
                bytes.start as int,
                bytes.end as int,
            ),
    {
        range_from_utf16(self.buffer.as_str(), r)
    }

    /// Puts the caret at `offset` and selects nothing. An offset beyond
    /// the text stands for its end, and one inside a character for the
    /// start of that character.
    pub fn move_to(&mut self, offset: usize) -> (update: Update)
        ensures
            final(self)@ == old(self)@.move_to(offset),
            final(self)@.wf(),
            final(self).placeholder_text() == old(self).placeholder_text(),
            is_boundary(old(self)@.text, offset as int) ==> final(self)@.cursor() == offset,
            offset >= byte_len(old(self)@.text) ==> final(self)@.cursor() == byte_len(
                old(self)@.text,
            ),
            update@ == UpdateView::repaint(),
    {
        proof {
            use_type_invariant(&*self);
        }
        let at = snap_to_boundary(self.buffer.as_str(), offset);
        proof {
            if is_boundary(self@.text, offset as int) {
                lemma_floor_of_boundary(self@.text, offset as int);
            }
            if offset >= byte_len(self@.text) {
                lemma_floor_past_end(self@.text, offset as int);
            }
        }
        self.selection = SelectionRange::caret_at(at);
        Update::repaint()
    }

    /// Takes the caret to `offset` and leaves the anchor where it is.
    /// When the caret passes the anchor, the two ends of the selection
    /// change places and its direction flips.
    pub fn select_to(&mut self, offset: usize) -> (update: Update)
        ensures
            final(self)@ == old(self)@.select_to(offset),
            final(self)@.wf(),
            final(self).placeholder_text() == old(self).placeholder_text(),
            final(self)@.selection.anchor() == old(self)@.selection.anchor(),
            is_boundary(old(self)@.text, offset as int) ==> final(self)@.cursor() == offset,
            update@ == UpdateView::repaint(),
    {
        proof {
            use_type_invariant(&*self);
        }
        let len = self.buffer.length();
        let at = snap_to_boundary(self.buffer.as_str(), offset);
        proof {
            if is_boundary(self@.text, offset as int) {
                lemma_floor_of_boundary(self@.text, offset as int);
            }
            lemma_boundary_offset(
                Encoding::Utf8,
                self@.text,
                self.selection.end as int,
            );
        }
        let mut selection = self.selection;
        selection.select_to(at, len);
        self.selection = selection;
        Update::repaint()
    }

    /// Selects the whole text.
    pub fn select_all(&mut self) -> (update: Update)
        ensures
            final(self)@ == old(self)@.select_all(),
            final(self)@.wf(),
            final(self).placeholder_text() == old(self).placeholder_text(),
            update@ == UpdateView::repaint(),
    {
        let len = self.buffer.length();
        proof {
            use_type_invariant(&*self);
            lemma_ends_are_boundaries(Encoding::Utf8, self@.text);
        }
        self.selection = SelectionRange { start: 0, end: len, reversed: false };
        Update::repaint()
    }

    /// The byte offset that a pointer position stands for: the start of
    /// the text where nothing was painted yet or the pointer is left of
    /// the text, its end where the pointer is right of it, and else the
    /// offset that the layout found.
    pub fn index_for_mouse_position(&self, hit: PointerHit) -> (offset: usize)
        ensures
            offset == self@.pointer_offset(hit),
    {
        match hit {
            PointerHit::NoLayout => 0,
            PointerHit::Before => 0,
            PointerHit::After => self.buffer.length(),
            PointerHit::Inside(offset) => offset,
        }
    }

    /// A mouse button went down: the pointer drags the caret from now
    /// on, and the caret goes to the pointer, with the anchor if shift is
    /// held.
    pub fn on_mouse_down(&mut self, hit: PointerHit, shift: bool) -> (update: Update)
        ensures
            final(self)@ == old(self)@.mouse_down(hit, shift),
            final(self)@.wf(),
            final(self).placeholder_text() == old(self).placeholder_text(),
            update@ == UpdateView::repaint(),
    {
        proof {
            use_type_invariant(&*self);
        }
        self.is_selecting = true;
        let offset = self.index_for_mouse_position(hit);
        if shift {
            self.select_to(offset)
        } else {
            self.move_to(offset)
        }
    }

    /// The mouse button went up: the pointer drags the caret no more.
    pub fn on_mouse_up(&mut self)
        ensures
            final(self)@ == old(self)@.mouse_up(),
            final(self)@.wf(),
            final(self).placeholder_text() == old(self).placeholder_text(),
    {
        proof {
            use_type_invariant(&*self);
        }
        self.is_selecting = false;
    }

    /// The pointer moved: while it drags the caret, the caret follows it
    /// and the anchor stays.
    pub fn on_mouse_move(&mut self, hit: PointerHit) -> (update: Update)
        ensures
            final(self)@ == old(self)@.mouse_move(hit),
            final(self)@.wf(),
            final(self).placeholder_text() == old(self).placeholder_text(),
            update@ == if old(self)@.selecting {
                UpdateView::repaint()
            } else {
                UpdateView::nothing()
            },
    {
        proof {
            use_type_invariant(&*self);
        }
        if self.is_selecting {
            let offset = self.index_for_mouse_position(hit);
            self.select_to(offset)
        } else {
            Update::nothing()
        }
    }

    /// The UTF-16 offset of the character that the layout found at a
    /// point; none where the layout had no answer.
    pub fn character_index_for_point(&self, index: Option<usize>) -> (units: Option<usize>)
        ensures
            units == match index {
                Some(offset) => Some(to_utf16(self@.text, offset as int) as usize),
                None => None,
            },
    {
        match index {
            Some(offset) => Some(self.offset_to_utf16(offset)),
            None => None,
        }
    }

    /// The bytes whose place on the screen an input method asks for by
    /// a UTF-16 range; none while nothing was painted yet and there is
    /// no layout to measure them in.
    pub fn bounds_for_range(&self, range_utf16: Range<usize>, has_layout: bool) -> (bytes: Option<
        Range<usize>,
    >)
        ensures
            bytes == if has_layout {
                Some(
                    range(
                        from_utf16(self@.text, range_utf16.start as int) as int,
                        from_utf16(self@.text, range_utf16.end as int) as int,
                    ),
                )
            } else {
                None
            },
    {
        if has_layout {
            Some(self.range_from_utf16(&range_utf16))
        } else {
            None
        }
    }

    /// The text of a UTF-16 range, with the range as it was understood:
    /// cut back to the text, and widened to whole characters.
    pub fn text_for_range(&self, range_utf16: Range<usize>) -> (out: (String, Range<usize>))
        requires
            range_utf16.start <= range_utf16.end,
        ensures
            out.0@ == slice(
                self@.text,
                from_utf16(self@.text, range_utf16.start as int) as int,
                from_utf16(self@.text, range_utf16.end as int) as int,
            ),
            out.1.start == to_utf16(
                self@.text,
                from_utf16(self@.text, range_utf16.start as int) as int,
            ),
            out.1.end == to_utf16(
                self@.text,
                from_utf16(self@.text, range_utf16.end as int) as int,
            ),
    {
        let text = self.buffer.as_str();
        let bytes = range_from_utf16(text, &range_utf16);
        let adjusted = range_to_utf16(text, &bytes);
        let part = slice_text(text, bytes.start, bytes.end);
        (String::from_str(part), adjusted)
    }

    /// The selection, in UTF-16 code units, and its direction.
    pub fn selected_text_range(&self) -> (selected: Utf16Selection)
        ensures
            selected.range.start == to_utf16(self@.text, self@.selection.start as int),
            selected.range.end == to_utf16(self@.text, self@.selection.end as int),
            selected.reversed == self@.selection.reversed,
    {
        let r = self.selection.start..self.selection.end;
        Utf16Selection { range: self.range_to_utf16(&r), reversed: self.selection.reversed }
    }

    /// The composition, in UTF-16 code units, if there is one.
    pub fn marked_text_range(&self) -> (marked: Option<Range<usize>>)
        ensures
            marked == match self@.marked {
                Some(r) => Some(
                    range(
                        to_utf16(self@.text, r.start as int) as int,
                        to_utf16(self@.text, r.end as int) as int,
                    ),
                ),
                None => None,
            },
    {
        match &self.marked_range {
            Some(r) => Some(self.range_to_utf16(r)),
            None => None,
        }
    }

    /// Gives the composition up: what was composed stays in the text.
    pub fn unmark_text(&mut self) -> (update: Update)
        ensures
            final(self)@ == old(self)@.unmark(),
            final(self)@.wf(),
            final(self).placeholder_text() == old(self).placeholder_text(),
            update@ == UpdateView::repaint(),
    {
        proof {
            use_type_invariant(&*self);
        }
        self.marked_range = None;
        Update::repaint()
    }

    /// The bytes that an edit of the input method is about: the range
    /// that it names; else the composition; else the selection.
    pub fn target_range(&self, range_utf16: Option<Range<usize>>) -> (r: Range<usize>)
        requires
            match range_utf16 {
                Some(u) => u.start <= u.end,
                None => true,
            },
        ensures
            r == self@.target(range_utf16),
            is_valid_range(self@.text, r.start as int, r.end as int),
    {
        proof {
            use_type_invariant(self);
        }
        match range_utf16 {
            Some(u) => self.range_from_utf16(&u),
            None => match &self.marked_range {
                Some(m) => m.start..m.end,
                None => self.selection.start..self.selection.end,
            },
        }
    }

    /// Replaces the bytes of `r` by `text`, puts the caret behind `text`
    /// and gives the composition up.
    pub fn replace_bytes(&mut self, r: Range<usize>, text: &str) -> (update: Update)
        requires
            is_valid_range(old(self)@.text, r.start as int, r.end as int),
        ensures
            final(self)@ == old(self)@.replace(r, text@),
            final(self)@.wf(),
            final(self).placeholder_text() == old(self).placeholder_text(),
            final(self)@.cursor() == r.start + byte_len(text@),
            update@ == UpdateView::text_changed(final(self)@.text),
    {
        proof {
            use_type_invariant(&*self);
            lemma_ends_are_boundaries(Encoding::Utf8, self@.text);
            lemma_splice_len(self@.text, r.start as int, r.end as int, text@);
            lemma_ends_are_boundaries(
                Encoding::Utf8,
                splice(self@.text, r.start as int, r.end as int, text@),
            );
        }
        match self.buffer.spliced(&r, text) {
            Ok(buffer) => {
                // The new text has a length, so the offset behind `text`,
                // which is not beyond it, can be computed.
                let total = buffer.length();
                assert(r.start + byte_len(text@) <= total);
                let at = r.start + byte_length(text);
                self.marked_range = None;
                self.selection = SelectionRange::caret_at(0);
                self.buffer = buffer;
                self.selection = SelectionRange::caret_at(at);
                Update::text_changed(self.buffer.text())
            },
            Err(_) => Update::nothing(),
        }
    }

    /// The input method commits `text` in place of a range: the one that
    /// it names, in UTF-16; else the composition; else the selection.
    /// The caret is behind `text` and the composition is over.
    pub fn replace_text_in_range(&mut self, range_utf16: Option<Range<usize>>, text: &str) -> (update:
        Update)
        requires
            match range_utf16 {
                Some(u) => u.start <= u.end,
                None => true,
            },
        ensures
            final(self)@ == old(self)@.replace(old(self)@.target(range_utf16), text@),
            final(self)@.wf(),
            final(self)@.marked is None,
            final(self).placeholder_text() == old(self).placeholder_text(),
            update@ == UpdateView::text_changed(final(self)@.text),
    {
        let r = self.target_range(range_utf16);
        self.replace_bytes(r, text)
    }

    /// The input method puts the provisional `new_text` in place of a
    /// range: the one that it names, in UTF-16; else the composition;
    /// else the selection. `new_text` is the composition from now on.
    /// The selection is `new_selected_range_utf16`, counted in UTF-16
    /// from where `new_text` begins, or the caret behind `new_text`.
    pub fn replace_and_mark_text_in_range(
        &mut self,
        range_utf16: Option<Range<usize>>,
        new_text: &str,
        new_selected_range_utf16: Option<Range<usize>>,
    ) -> (update: Update)
        requires
            match range_utf16 {
                Some(u) => u.start <= u.end,
                None => true,
            },
            match new_selected_range_utf16 {
                Some(u) => u.start <= u.end,
                None => true,
            },
        ensures
            final(self)@ == old(self)@.replace_and_mark(
                old(self)@.target(range_utf16),
                new_text@,
                new_selected_range_utf16,
            ),
            final(self)@.wf(),
            final(self).placeholder_text() == old(self).placeholder_text(),
            update@ == UpdateView::text_changed(final(self)@.text),
    {
        let r = self.target_range(range_utf16);
        let mark_start = r.start;
        proof {
            lemma_splice_len(self@.text, r.start as int, r.end as int, new_text@);
        }
        let update = self.replace_bytes(r, new_text);
        let mark_end = self.selection.end;
        proof {
            use_type_invariant(&*self);
        }
        match new_selected_range_utf16 {
            Some(inner) => {
                let text = self.buffer.as_str();
                let base = offset_to_utf16(text, mark_start);
                let start = offset_from_utf16(text, base.saturating_add(inner.start));
                let end = offset_from_utf16(text, base.saturating_add(inner.end));
                proof {
                    let s = self@.text;
                    lemma_utf16_not_longer(s);
                    if base + inner.start > usize::MAX {
                        lemma_from_utf16_past_end(s, base + inner.start);
                        lemma_from_utf16_past_end(s, usize::MAX as int);
                    }
                    if base + inner.end > usize::MAX {
                        lemma_from_utf16_past_end(s, base + inner.end);
                        lemma_from_utf16_past_end(s, usize::MAX as int);
                    }
                    lemma_convert_monotonic(
                        Encoding::Utf16,
                        Encoding::Utf8,
                        s,
                        base + inner.start,
                        base + inner.end,
                    );
                }
                self.selection = SelectionRange { start, end, reversed: false };
            },
            None => {},
        }
        self.marked_range = Some(mark_start..mark_end);
        update
    }

    /// Takes the caret one grapheme cluster to the left (`forward`
    /// false) or to the right (`forward` true); the anchor stays if
    /// `extend` is set, and goes with the caret if not.
    pub fn step(&mut self, forward: bool, extend: bool) -> (update: Update)
        ensures
            final(self)@ == old(self)@.step(forward, extend),
            final(self)@.wf(),
            final(self).placeholder_text() == old(self).placeholder_text(),
            !forward && old(self)@.cursor() > 0 ==> final(self)@.cursor() < old(self)@.cursor(),
            forward && old(self)@.cursor() < byte_len(old(self)@.text) ==> final(self)@.cursor()
                > old(self)@.cursor(),
            update@ == UpdateView::repaint(),
    {
        proof {
            use_type_invariant(&*self);
        }
        let cursor = self.cursor_offset();
        let len = self.buffer.length();
        proof {
            lemma_boundary_offset(
                Encoding::Utf8,
                self@.text,
                self.selection.end as int,
            );
        }
        let to = if forward {
            boundary_after(self.buffer.as_str(), cursor)
        } else {
            boundary_before(self.buffer.as_str(), cursor)
        };
        if extend {
            let mut selection = self.selection;
            selection.select_to(to, len);
            self.selection = selection;
        } else {
            self.selection = SelectionRange::caret_at(to);
        }
        Update::repaint()
    }

    /// The bytes that "backspace" (`forward` false) or "delete"
    /// (`forward` true) removes: the selection, if anything is selected,
    /// whatever clusters it cuts; else the one grapheme cluster before
    /// or behind the caret; nothing where there is none.
    pub fn deletion_range(&self, forward: bool) -> (r: Option<Range<usize>>)
        ensures
            r == self@.deletion(forward),
            match r {
                Some(d) => is_valid_range(self@.text, d.start as int, d.end as int) && d.start
                    < d.end,
                None => true,
            },
    {
        proof {
            use_type_invariant(self);
        }
        let cursor = self.cursor_offset();
        if self.selection.start < self.selection.end {
            Some(self.selection.start..self.selection.end)
        } else if forward {
            if cursor < self.buffer.length() {
                Some(cursor..boundary_after(self.buffer.as_str(), cursor))
            } else {
                None
            }
        } else {
            if cursor > 0 {
                Some(boundary_before(self.buffer.as_str(), cursor)..cursor)
            } else {
                None
            }
        }
    }

    /// "backspace" (`forward` false) or "delete" (`forward` true):
    /// removes what `deletion_range` says and puts the caret where it
    /// was.
    pub fn delete(&mut self, forward: bool) -> (update: Update)
        ensures
            final(self)@ == old(self)@.delete(forward),
            final(self)@.wf(),
            final(self).placeholder_text() == old(self).placeholder_text(),
            update@ == old(self)@.delete_update(forward),
    {
        match self.deletion_range(forward) {
            Some(r) => {
                proof {
                    reveal_strlit("");
                    assert(""@ =~= Seq::<char>::empty());
                }
                self.replace_bytes(r, "")
            },
            None => {
                proof {
                    use_type_invariant(&*self);
                }
                Update::nothing()
            },
        }
    }

    /// Types `text`: the selection gives way to it, and the caret is
    /// behind it.
    pub fn insert(&mut self, text: &str) -> (update: Update)
        ensures
            final(self)@ == old(self)@.insert(text@),
            final(self)@.wf(),
            final(self).placeholder_text() == old(self).placeholder_text(),
            update@ == UpdateView::text_changed(final(self)@.text),
    {
        proof {
            use_type_invariant(&*self);
        }
        let r = self.selection.start..self.selection.end;
        self.replace_bytes(r, text)
    }

    /// "enter": a single line is submitted; among many lines a line
    /// break is typed.
    pub fn enter(&mut self) -> (update: Update)
        ensures
            final(self)@ == old(self)@.enter(),
            final(self)@.wf(),
            final(self).placeholder_text() == old(self).placeholder_text(),
            update@ == old(self)@.enter_update(),
    {
        proof {
            use_type_invariant(&*self);
        }
        match self.mode {
            LineMode::SingleLine => Update::enter_pressed(),
            LineMode::MultiLine => self.insert("\n"),
        }
    }

    /// A key went down. "enter" submits or breaks the line; "left" and
    /// "right" move the caret by one grapheme cluster, with the anchor
    /// staying while shift is held; "backspace" and "delete" remove the
    /// selection or one grapheme cluster; "a" with control or the
    /// platform key selects everything. Other keys do nothing here:
    /// their text comes through the input method.
    pub fn on_key_down(&mut self, key: &str, modifiers: Modifiers) -> (update: Update)
        ensures
            final(self)@ == old(self)@.key_down(key@, modifiers),
            final(self)@.wf(),
            final(self).placeholder_text() == old(self).placeholder_text(),
            update@ == old(self)@.key_down_update(key@, modifiers),
    {
        if same_text(key, "enter") {
            self.enter()
        } else if same_text(key, "left") {
            self.step(false, modifiers.shift)
        } else if same_text(key, "right") {
            self.step(true, modifiers.shift)
        } else if same_text(key, "backspace") {
            self.delete(false)
        } else if same_text(key, "delete") {
            self.delete(true)
        } else if same_text(key, "a") && (modifiers.platform || modifiers.control) {
            self.select_all()
        } else {
            proof {
                use_type_invariant(&*self);
            }
            Update::nothing()
        }
    }
}

} // verus!
