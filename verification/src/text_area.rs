//! The multi-line text area: a text input in which "enter" begins a new
//! line and plain keys type themselves.

use crate::encoding::{byte_len, is_boundary};
use crate::event::{Modifiers, TextAreaEvent, TextInputEvent, Update, UpdateView};
use crate::state::{EditState, LineMode};
use crate::text_input::TextInput;
use crate::utf8::{byte_length, same_text};
use vstd::prelude::*;

verus! {

/// What the host of a text area has to do after a call: repaint, and
/// send an event.
#[derive(Clone, Debug, PartialEq, Eq)]
pub struct AreaUpdate {
    /// Whether observers are told that the widget has to be laid out and
    /// painted again.
    pub notify: bool,
    /// The event to send, if any.
    pub event: Option<TextAreaEvent>,
}

impl View for AreaUpdate {
    type V = UpdateView;

    open spec fn view(&self) -> UpdateView {
        UpdateView {
            notify: self.notify,
            event: match self.event {
                Some(event) => Some(event@),
                None => None,
            },
        }
    }
}

impl AreaUpdate {
    /// The update of a text input as one of a text area, which has no
    /// event for a text that is submitted.
    pub fn from_update(update: Update) -> (area: AreaUpdate)
        ensures
            area.notify == update.notify,
            area@.event == match update@.event {
                Some(crate::event::EventView::TextChanged(text)) => Some(
                    crate::event::EventView::TextChanged(text),
                ),
                _ => None,
            },
    {
        let event = match update.event {
            Some(TextInputEvent::TextChanged(text)) => Some(TextAreaEvent::TextChanged(text)),
            _ => None,
        };
        AreaUpdate { notify: update.notify, event }
    }
}

/// An editable text of many lines. Its view is its `EditState`.
pub struct TextArea {
    input: TextInput,
}

impl View for TextArea {
    type V = EditState;

    closed spec fn view(&self) -> EditState {
        self.input@
    }
}

impl TextArea {
    /// What holds of a text area at all times: it is a well-formed input
    /// of many lines with a plain caret and no composition.
    pub open spec fn wf(&self) -> bool {
        &&& self@.wf()
        &&& self@.mode == LineMode::MultiLine
        &&& self@.selection.start == self@.selection.end
        &&& self@.marked is None
    }

    /// The text shown while the area is empty.
    pub closed spec fn placeholder_text(&self) -> Seq<char> {
        self.input.placeholder_text()
    }

    /// An empty text area.
    pub fn new(placeholder: &str) -> (area: Self)
        ensures
            area@ == EditState::init(LineMode::MultiLine),
            area.wf(),
            area.placeholder_text() == placeholder@,
    {
        TextArea { input: TextInput::with_mode(placeholder, LineMode::MultiLine) }
    }

    /// Replaces the whole text and puts the caret at its end.
    pub fn set_text(&mut self, text: &str) -> (update: AreaUpdate)
        requires
            old(self).wf(),
        ensures
            final(self)@ == old(self)@.set_text(text@),
            final(self).wf(),
            final(self).placeholder_text() == old(self).placeholder_text(),
            update@ == UpdateView::text_changed(text@),
    {
        AreaUpdate::from_update(self.input.set_text(text))
    }

    /// A copy of the text.
    pub fn text(&self) -> (text: String)
        ensures
            text@ == self@.text,
    {
        self.input.text()
    }

    /// The text shown while the area is empty.
    pub fn placeholder(&self) -> (text: &str)
        ensures
            text@ == self.placeholder_text(),
    {
        self.input.placeholder()
    }

    /// Where the caret is.
    pub fn cursor_offset(&self) -> (offset: usize)
        ensures
            offset == self@.cursor(),
            is_boundary(self@.text, offset as int),
            offset <= byte_len(self@.text),
    {
        self.input.cursor_offset()
    }

    /// A key went down. "enter" begins a new line; "left" and "right"
    /// move the caret by one grapheme cluster; "backspace" removes the
    /// grapheme cluster before the caret; a key whose name is a single
    /// character of one byte types that character, unless control or
    /// the platform key is held. Other keys do nothing.
    pub fn on_key_down(&mut self, key: &str, modifiers: Modifiers) -> (update: AreaUpdate)
        requires
            old(self).wf(),
        ensures
            final(self)@ == old(self)@.area_key_down(key@, modifiers),
            final(self).wf(),
            final(self).placeholder_text() == old(self).placeholder_text(),
            update@ == old(self)@.area_key_down_update(key@, modifiers),
    {
        let update = if same_text(key, "enter") {
            self.input.enter()
        } else if same_text(key, "left") {
            self.input.step(false, false)
        } else if same_text(key, "right") {
            self.input.step(true, false)
        } else if same_text(key, "backspace") {
            self.input.delete(false)
        } else if byte_length(key) == 1 && !modifiers.control && !modifiers.platform {
            self.input.insert(key)
        } else {
            Update::nothing()
        };
        AreaUpdate::from_update(update)
    }
}

} // verus!
