//! What goes into the editing model and what comes out of it: the keys
//! and pointer positions that a host hands in, and the notifications
//! that it is asked to send.

use vstd::prelude::*;

verus! {

/// The modifier keys held while a key or a mouse button is pressed.
#[derive(Clone, Copy, Debug, PartialEq, Eq, Structural)]
pub struct Modifiers {
    /// Shift: movement extends the selection.
    pub shift: bool,
    /// Control.
    pub control: bool,
    /// The platform key (command, windows).
    pub platform: bool,
}

/// Where the pointer is, as the layout of the last paint answered it.
#[derive(Clone, Copy, Debug, PartialEq, Eq, Structural)]
pub enum PointerHit {
    /// Nothing was painted yet: there is no layout to ask.
    NoLayout,
    /// The pointer is left of the painted text.
    Before,
    /// The pointer is right of the painted text.
    After,
    /// The pointer is on the painted text, closest to this byte offset.
    Inside(usize),
}

/// An event that a single-line input sends to its observers.
#[derive(Clone, Debug, PartialEq, Eq)]
pub enum TextInputEvent {
    /// "enter" was pressed: the text is submitted.
    EnterPressed,
    /// The text was edited; this is all of it.
    TextChanged(String),
}

/// An event that a text area sends to its observers.
#[derive(Clone, Debug, PartialEq, Eq)]
pub enum TextAreaEvent {
    /// The text was edited; this is all of it.
    TextChanged(String),
}

/// What an event says, with texts as sequences of characters.
pub enum EventView {
    /// The text is submitted.
    EnterPressed,
    /// The text was edited.
    TextChanged(Seq<char>),
}

impl View for TextInputEvent {
    type V = EventView;

    open spec fn view(&self) -> EventView {
        match self {
            TextInputEvent::EnterPressed => EventView::EnterPressed,
            TextInputEvent::TextChanged(text) => EventView::TextChanged(text@),
        }
    }
}

impl View for TextAreaEvent {
    type V = EventView;

    open spec fn view(&self) -> EventView {
        match self {
            TextAreaEvent::TextChanged(text) => EventView::TextChanged(text@),
        }
    }
}

/// What the host has to do after a call: repaint, and send an event.
#[derive(Clone, Debug, PartialEq, Eq)]
pub struct Update {
    /// Whether observers are told that the widget has to be laid out and
    /// painted again.
    pub notify: bool,
    /// The event to send, if any.
    pub event: Option<TextInputEvent>,
}

/// What an update says, with texts as sequences of characters.
pub struct UpdateView {
    /// Whether to repaint.
    pub notify: bool,
    /// The event to send, if any.
    pub event: Option<EventView>,
}

impl UpdateView {
    /// Nothing happened.
    pub open spec fn nothing() -> UpdateView {
        UpdateView { notify: false, event: None }
    }

    /// Only the selection changed.
    pub open spec fn repaint() -> UpdateView {
        UpdateView { notify: true, event: None }
    }

    /// The text was submitted.
    pub open spec fn enter_pressed() -> UpdateView {
        UpdateView { notify: false, event: Some(EventView::EnterPressed) }
    }

    /// The text was edited and is now `text`.
    pub open spec fn text_changed(text: Seq<char>) -> UpdateView {
        UpdateView { notify: true, event: Some(EventView::TextChanged(text)) }
    }
}

impl View for Update {
    type V = UpdateView;

    open spec fn view(&self) -> UpdateView {
        UpdateView {
            notify: self.notify,
            event: match self.event {
                Some(event) => Some(event@),
                None => None,
            },
        }
    }
}

impl Update {
    /// Nothing to do.
    pub fn nothing() -> (update: Self)
        ensures
            update@ == UpdateView::nothing(),
    {
        Update { notify: false, event: None }
    }

    /// Repaint.
    pub fn repaint() -> (update: Self)
        ensures
            update@ == UpdateView::repaint(),
    {
        Update { notify: true, event: None }
    }

    /// Send `EnterPressed`.
    pub fn enter_pressed() -> (update: Self)
        ensures
            update@ == UpdateView::enter_pressed(),
    {
        Update { notify: false, event: Some(TextInputEvent::EnterPressed) }
    }

    /// Repaint and send `TextChanged` with `text`.
    pub fn text_changed(text: String) -> (update: Self)
        ensures
            update@ == UpdateView::text_changed(text@),
    {
        Update { notify: true, event: Some(TextInputEvent::TextChanged(text)) }
    }
}

} // verus!
