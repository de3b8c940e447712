//! The editing model as a value: the text, the selection and the
//! composition of a widget, and what each operation makes of them.

use crate::buffer::{is_valid_range, lemma_splice_len};
use crate::encoding::{
    byte_len, char_index, from_utf16, is_boundary, lemma_boundary_offset, lemma_convert_boundary,
    lemma_convert_monotonic, lemma_ends_are_boundaries, splice, to_utf16, Encoding,
};
use crate::event::{Modifiers, PointerHit, UpdateView};
use crate::navigation::{cluster_starts, last_cluster_start, next_boundary, previous_boundary};
use crate::selection::SelectionRange;
use crate::translate::{
    floor_boundary, lemma_floor_exists, lemma_floor_of_boundary, lemma_floor_past_end,
};
use std::ops::Range;
use vstd::prelude::*;

verus! {

/// What "enter" does.
#[derive(Clone, Copy, Debug, PartialEq, Eq, Structural)]
pub enum LineMode {
    /// One line: "enter" submits the text.
    SingleLine,
    /// Many lines: "enter" begins a new line.
    MultiLine,
}

/// The state of an editing widget.
pub struct EditState {
    /// The text.
    pub text: Seq<char>,
    /// The selection, in bytes.
    pub selection: SelectionRange,
    /// The text that an input method is composing, in bytes, if any.
    pub marked: Option<Range<usize>>,
    /// Whether a mouse button is held and the pointer drags the caret.
    pub selecting: bool,
    /// What "enter" does.
    pub mode: LineMode,
}

/// The range from `start` to `end`.
pub open spec fn range(start: int, end: int) -> Range<usize> {
    Range { start: start as usize, end: end as usize }
}

impl EditState {
    /// The invariant of the model: the selection and the composition are
    /// ranges of whole characters of the text.
    pub open spec fn wf(self) -> bool {
        &&& is_valid_range(self.text, self.selection.start as int, self.selection.end as int)
        &&& byte_len(self.text) <= usize::MAX
        &&& match self.marked {
            Some(r) => is_valid_range(self.text, r.start as int, r.end as int),
            None => true,
        }
    }

    /// Where the caret is.
    pub open spec fn cursor(self) -> usize {
        self.selection.caret()
    }

    /// The state of a new widget: no text, the caret at offset zero.
    pub open spec fn init(mode: LineMode) -> EditState {
        EditState {
            text: Seq::<char>::empty(),
            selection: SelectionRange::collapsed(0),
            marked: None,
            selecting: false,
            mode,
        }
    }

    /// The state after the text was set: the caret is at its end, and no
    /// composition is left.
    pub open spec fn set_text(self, text: Seq<char>) -> EditState {
        EditState {
            text,
            selection: SelectionRange {
                start: byte_len(text) as usize,
                end: byte_len(text) as usize,
                reversed: self.selection.reversed,
            },
            marked: None,
            ..self
        }
    }

    /// The state after the caret was put at `offset`.
    pub open spec fn move_to(self, offset: usize) -> EditState {
        EditState {
            selection: SelectionRange::collapsed(floor_boundary(self.text, offset as int) as usize),
            ..self
        }
    }

    /// The state after the caret was taken to `offset`, the anchor
    /// staying.
    pub open spec fn select_to(self, offset: usize) -> EditState {
        EditState {
            selection: self.selection.extended(floor_boundary(self.text, offset as int) as usize),
            ..self
        }
    }

    /// The state after all of the text was selected.
    pub open spec fn select_all(self) -> EditState {
        EditState {
            selection: SelectionRange {
                start: 0,
                end: byte_len(self.text) as usize,
                reversed: false,
            },
            ..self
        }
    }

    /// The bytes that an edit of the input method is about: the range
    /// that it names, in UTF-16; else the composition; else the
    /// selection.
    pub open spec fn target(self, range_utf16: Option<Range<usize>>) -> Range<usize> {
        match range_utf16 {
            Some(r) => range(
                from_utf16(self.text, r.start as int) as int,
                from_utf16(self.text, r.end as int) as int,
            ),
            None => match self.marked {
                Some(m) => m,
                None => range(self.selection.start as int, self.selection.end as int),
            },
        }
    }

    /// The state after the bytes of `r` were replaced by `t`: the caret
    /// is behind `t`, and no composition is left.
    pub open spec fn replace(self, r: Range<usize>, t: Seq<char>) -> EditState {
        EditState {
            text: splice(self.text, r.start as int, r.end as int, t),
            selection: SelectionRange::collapsed((r.start + byte_len(t)) as usize),
            marked: None,
            ..self
        }
    }

    /// The state after the bytes of `r` were replaced by `t` as a
    /// composition: `t` is marked, and the selection is `inner`, a
    /// UTF-16 range counted from where `t` begins, or the caret behind
    /// `t`.
    pub open spec fn replace_and_mark(
        self,
        r: Range<usize>,
        t: Seq<char>,
        inner: Option<Range<usize>>,
    ) -> EditState {
        let text = splice(self.text, r.start as int, r.end as int, t);
        let mark_end = r.start + byte_len(t);
        EditState {
            text,
            selection: match inner {
                Some(i) => SelectionRange {
                    start: from_utf16(text, to_utf16(text, r.start as int) + i.start) as usize,
                    end: from_utf16(text, to_utf16(text, r.start as int) + i.end) as usize,
                    reversed: false,
                },
                None => SelectionRange::collapsed(mark_end as usize),
            },
            marked: Some(range(r.start as int, mark_end)),
            ..self
        }
    }

    /// The state after the composition was given up: its text stays.
    pub open spec fn unmark(self) -> EditState {
        EditState { marked: None, ..self }
    }

    /// The bytes that "backspace" (`forward` false) or "delete"
    /// (`forward` true) removes: the selection, if anything is selected;
    /// else the grapheme cluster before or behind the caret, if there is
    /// one.
    pub open spec fn deletion(self, forward: bool) -> Option<Range<usize>> {
        if self.selection.start < self.selection.end {
            Some(range(self.selection.start as int, self.selection.end as int))
        } else if forward {
            if self.cursor() < byte_len(self.text) {
                Some(range(self.cursor() as int, next_boundary(self.text, self.cursor() as int)))
            } else {
                None
            }
        } else {
            if self.cursor() > 0 {
                Some(
                    range(previous_boundary(self.text, self.cursor() as int), self.cursor() as int),
                )
            } else {
                None
            }
        }
    }

    /// The state after "backspace" or "delete".
    pub open spec fn delete(self, forward: bool) -> EditState {
        match self.deletion(forward) {
            Some(r) => self.replace(r, Seq::<char>::empty()),
            None => self,
        }
    }

    /// What the host is asked to do after "backspace" or "delete": the
    /// text changed if there was anything to remove.
    pub open spec fn delete_update(self, forward: bool) -> UpdateView {
        if self.deletion(forward) is Some {
            UpdateView::text_changed(self.delete(forward).text)
        } else {
            UpdateView::nothing()
        }
    }

    /// The state after the caret went one grapheme cluster to the left
    /// (`forward` false) or to the right (`forward` true), with the
    /// anchor (`extend` true) or without it.
    pub open spec fn step(self, forward: bool, extend: bool) -> EditState {
        let to = if forward {
            next_boundary(self.text, self.cursor() as int)
        } else {
            previous_boundary(self.text, self.cursor() as int)
        };
        EditState {
            selection: if extend {
                self.selection.extended(to as usize)
            } else {
                SelectionRange::collapsed(to as usize)
            },
            ..self
        }
    }

    /// The state after `t` was typed: the selection gives way to it.
    pub open spec fn insert(self, t: Seq<char>) -> EditState {
        self.replace(range(self.selection.start as int, self.selection.end as int), t)
    }

    /// The state after "enter": in a single line nothing changes; among
    /// many lines a line break is typed.
    pub open spec fn enter(self) -> EditState {
        match self.mode {
            LineMode::SingleLine => self,
            LineMode::MultiLine => self.insert("\n"@),
        }
    }

    /// What the host is asked to do after "enter".
    pub open spec fn enter_update(self) -> UpdateView {
        match self.mode {
            LineMode::SingleLine => UpdateView::enter_pressed(),
            LineMode::MultiLine => UpdateView::text_changed(self.enter().text),
        }
    }

    /// True when `key` names a key that types its own name: one
    /// character of one byte, without control or the platform key.
    pub open spec fn types_itself(key: Seq<char>, m: Modifiers) -> bool {
        byte_len(key) == 1 && !m.control && !m.platform
    }

    /// The state of a text area after the key named `key` was pressed
    /// with the modifiers `m`.
    pub open spec fn area_key_down(self, key: Seq<char>, m: Modifiers) -> EditState {
        if key == "enter"@ {
            self.insert("\n"@)
        } else if key == "left"@ {
            self.step(false, false)
        } else if key == "right"@ {
            self.step(true, false)
        } else if key == "backspace"@ {
            self.delete(false)
        } else if Self::types_itself(key, m) {
            self.insert(key)
        } else {
            self
        }
    }

    /// What the host of a text area is asked to do after the key named
    /// `key` was pressed with the modifiers `m`.
    pub open spec fn area_key_down_update(self, key: Seq<char>, m: Modifiers) -> UpdateView {
        if key == "enter"@ {
            UpdateView::text_changed(self.insert("\n"@).text)
        } else if key == "left"@ || key == "right"@ {
            UpdateView::repaint()
        } else if key == "backspace"@ {
            self.delete_update(false)
        } else if Self::types_itself(key, m) {
            UpdateView::text_changed(self.insert(key).text)
        } else {
            UpdateView::nothing()
        }
    }

    /// The state after the key named `key` was pressed with the
    /// modifiers `m`.
    pub open spec fn key_down(self, key: Seq<char>, m: Modifiers) -> EditState {
        if key == "enter"@ {
            self.enter()
        } else if key == "left"@ {
            self.step(false, m.shift)
        } else if key == "right"@ {
            self.step(true, m.shift)
        } else if key == "backspace"@ {
            self.delete(false)
        } else if key == "delete"@ {
            self.delete(true)
        } else if key == "a"@ && (m.platform || m.control) {
            self.select_all()
        } else {
            self
        }
    }

    /// What the host is asked to do after the key named `key` was
    /// pressed with the modifiers `m`.
    pub open spec fn key_down_update(self, key: Seq<char>, m: Modifiers) -> UpdateView {
        if key == "enter"@ {
            self.enter_update()
        } else if key == "left"@ || key == "right"@ {
            UpdateView::repaint()
        } else if key == "backspace"@ {
            self.delete_update(false)
        } else if key == "delete"@ {
            self.delete_update(true)
        } else if key == "a"@ && (m.platform || m.control) {
            UpdateView::repaint()
        } else {
            UpdateView::nothing()
        }
    }

    /// The byte offset that a pointer position stands for.
    pub open spec fn pointer_offset(self, hit: PointerHit) -> usize {
        match hit {
            PointerHit::NoLayout => 0,
            PointerHit::Before => 0,
            PointerHit::After => byte_len(self.text) as usize,
            PointerHit::Inside(offset) => offset,
        }
    }

    /// The state after a mouse button went down at `hit`: the pointer
    /// drags the caret from now on.
    pub open spec fn mouse_down(self, hit: PointerHit, shift: bool) -> EditState {
        let pressed = EditState { selecting: true, ..self };
        if shift {
            pressed.select_to(self.pointer_offset(hit))
        } else {
            pressed.move_to(self.pointer_offset(hit))
        }
    }

    /// The state after the pointer went to `hit`.
    pub open spec fn mouse_move(self, hit: PointerHit) -> EditState {
        if self.selecting {
            self.select_to(self.pointer_offset(hit))
        } else {
            self
        }
    }

    /// The state after the mouse button went up.
    pub open spec fn mouse_up(self) -> EditState {
        EditState { selecting: false, ..self }
    }
}

/// In a well-formed state the selection is ordered and lies in the text,
/// and so does the composition.
pub proof fn lemma_wf_bounds(state: EditState)
    requires
        state.wf(),
    ensures
        0 <= state.selection.start <= state.selection.end <= byte_len(state.text),
        state.cursor() <= byte_len(state.text),
        match state.marked {
            Some(r) => 0 <= r.start <= r.end <= byte_len(state.text),
            None => true,
        },
{
    lemma_boundary_offset(Encoding::Utf8, state.text, state.selection.end as int);
    match state.marked {
        Some(r) => {
            lemma_boundary_offset(Encoding::Utf8, state.text, r.end as int);
        },
        None => {},
    }
}

/// The state of a new widget is well formed.
pub proof fn lemma_init_wf(mode: LineMode)
    ensures
        EditState::init(mode).wf(),
{
    lemma_ends_are_boundaries(Encoding::Utf8, Seq::<char>::empty());
}

/// Setting a text that fits in memory leaves a well-formed state.
pub proof fn lemma_set_text_wf(state: EditState, text: Seq<char>)
    requires
        byte_len(text) <= usize::MAX,
    ensures
        state.set_text(text).wf(),
{
    lemma_ends_are_boundaries(Encoding::Utf8, text);
}

/// Putting the caret somewhere leaves a well-formed state; the caret is
/// at the offset if that is a boundary, and at the end of the text if
/// the offset is beyond it.
pub proof fn lemma_move_to(state: EditState, offset: usize)
    requires
        state.wf(),
    ensures
        state.move_to(offset).wf(),
        state.move_to(offset).cursor() <= offset,
        is_boundary(state.text, offset as int) ==> state.move_to(offset).cursor() == offset,
        offset >= byte_len(state.text) ==> state.move_to(offset).cursor() == byte_len(state.text),
{
    lemma_floor_exists(state.text, offset as int);
    if is_boundary(state.text, offset as int) {
        lemma_floor_of_boundary(state.text, offset as int);
    }
    if offset >= byte_len(state.text) {
        lemma_floor_past_end(state.text, offset as int);
    }
}

/// Taking the caret somewhere leaves a well-formed state, in which the
/// anchor is where it was.
pub proof fn lemma_select_to(state: EditState, offset: usize)
    requires
        state.wf(),
    ensures
        state.select_to(offset).wf(),
        state.select_to(offset).selection.anchor() == state.selection.anchor(),
        state.select_to(offset).cursor() <= offset,
        is_boundary(state.text, offset as int) ==> state.select_to(offset).cursor() == offset,
{
    lemma_floor_exists(state.text, offset as int);
    if is_boundary(state.text, offset as int) {
        lemma_floor_of_boundary(state.text, offset as int);
    }
}

/// Selecting everything leaves a well-formed state.
pub proof fn lemma_select_all_wf(state: EditState)
    requires
        state.wf(),
    ensures
        state.select_all().wf(),
{
    lemma_ends_are_boundaries(Encoding::Utf8, state.text);
}

/// Replacing a range of whole characters leaves a well-formed state
/// without a composition, as long as the new text fits in memory.
pub proof fn lemma_replace_wf(state: EditState, r: Range<usize>, t: Seq<char>)
    requires
        state.wf(),
        is_valid_range(state.text, r.start as int, r.end as int),
        byte_len(state.replace(r, t).text) <= usize::MAX,
    ensures
        state.replace(r, t).wf(),
        state.replace(r, t).marked is None,
        state.replace(r, t).cursor() == r.start + byte_len(t),
{
    lemma_splice_len(state.text, r.start as int, r.end as int, t);
}

/// Replacing a range of whole characters by a composition leaves a
/// well-formed state, as long as the new text fits in memory.
pub proof fn lemma_replace_and_mark_wf(
    state: EditState,
    r: Range<usize>,
    t: Seq<char>,
    inner: Option<Range<usize>>,
)
    requires
        state.wf(),
        is_valid_range(state.text, r.start as int, r.end as int),
        byte_len(state.replace_and_mark(r, t, inner).text) <= usize::MAX,
        match inner {
            Some(i) => i.start <= i.end,
            None => true,
        },
    ensures
        state.replace_and_mark(r, t, inner).wf(),
        state.replace_and_mark(r, t, inner).marked == Some(
            range(r.start as int, r.start + byte_len(t)),
        ),
{
    let text = splice(state.text, r.start as int, r.end as int, t);
    lemma_splice_len(state.text, r.start as int, r.end as int, t);
    match inner {
        Some(i) => {
            let base = to_utf16(text, r.start as int);
            lemma_convert_boundary(Encoding::Utf16, Encoding::Utf8, text, base + i.start);
            lemma_convert_boundary(Encoding::Utf16, Encoding::Utf8, text, base + i.end);
            lemma_convert_monotonic(
                Encoding::Utf16,
                Encoding::Utf8,
                text,
                base + i.start,
                base + i.end,
            );
        },
        None => {},
    }
}

/// With something selected, "backspace" and "delete" remove exactly the
/// selection, wherever its ends stand among the grapheme clusters, and
/// leave the caret where the selection began.
pub proof fn lemma_delete_removes_selection(state: EditState, forward: bool)
    requires
        state.wf(),
        state.selection.start < state.selection.end,
    ensures
        state.delete(forward).text == splice(
            state.text,
            state.selection.start as int,
            state.selection.end as int,
            Seq::<char>::empty(),
        ),
        byte_len(state.delete(forward).text) == byte_len(state.text) - (state.selection.end
            - state.selection.start),
        state.delete(forward).selection == SelectionRange::collapsed(state.selection.start),
        state.delete(forward).wf(),
{
    lemma_splice_len(
        state.text,
        state.selection.start as int,
        state.selection.end as int,
        Seq::<char>::empty(),
    );
    lemma_replace_wf(
        state,
        range(state.selection.start as int, state.selection.end as int),
        Seq::<char>::empty(),
    );
}

/// With nothing selected, "backspace" removes exactly the grapheme
/// cluster before the caret, and nothing where the caret is at the start
/// of the text.
pub proof fn lemma_backspace_removes_cluster(state: EditState)
    requires
        state.selection.start == state.selection.end,
    ensures
        state.cursor() == 0 ==> state.delete(false) == state,
        state.cursor() > 0 ==> state.delete(false).text == splice(
            state.text,
            previous_boundary(state.text, state.cursor() as int),
            state.cursor() as int,
            Seq::<char>::empty(),
        ),
{
    if state.cursor() > 0 {
        let from = previous_boundary(state.text, state.cursor() as int);
        assert(last_cluster_start(
            cluster_starts(state.text.take(char_index(state.text, state.cursor() as int))),
        ) == from);
        assert(0 <= from <= usize::MAX);
    }
}

/// Giving the composition up leaves a well-formed state.
pub proof fn lemma_unmark_wf(state: EditState)
    requires
        state.wf(),
    ensures
        state.unmark().wf(),
        state.unmark().text == state.text,
{
}

/// What the mouse does leaves a well-formed state.
pub proof fn lemma_mouse_wf(state: EditState, hit: PointerHit, shift: bool)
    requires
        state.wf(),
    ensures
        state.mouse_down(hit, shift).wf(),
        state.mouse_move(hit).wf(),
        state.mouse_up().wf(),
{
    let pressed = EditState { selecting: true, ..state };
    lemma_move_to(pressed, state.pointer_offset(hit));
    lemma_select_to(pressed, state.pointer_offset(hit));
    lemma_select_to(state, state.pointer_offset(hit));
}

} // verus!
