//! The model behind the text widgets of a small HTTP client: a text
//! buffer with a selection and an input-method composition, movement
//! and deletion by grapheme clusters, and the way from byte offsets to
//! UTF-16 offsets and back. Beside it stand the state of the request
//! that the client edits and the classification of what comes back.
//!
//! Every function carries a contract over a mathematical model: texts
//! are sequences of characters (`encoding`), and a widget is an
//! `EditState` (`state`) that stays well formed whatever is done to it.

pub mod app_state;
pub mod buffer;
pub mod encoding;
pub mod event;
pub mod navigation;
pub mod response;
pub mod selection;
pub mod state;
pub mod text_area;
pub mod text_input;
pub mod translate;
pub mod utf8;
