use text_edit_core::event::{Modifiers, TextAreaEvent, TextInputEvent, Update};
use text_edit_core::text_area::{AreaUpdate, TextArea};

const PLAIN: Modifiers = Modifiers { shift: false, control: false, platform: false };
const SHIFT: Modifiers = Modifiers { shift: true, control: false, platform: false };
const CONTROL: Modifiers = Modifiers { shift: false, control: true, platform: false };
const PLATFORM: Modifiers = Modifiers { shift: false, control: false, platform: true };

fn repaint() -> AreaUpdate {
    AreaUpdate { notify: true, event: None }
}

fn nothing() -> AreaUpdate {
    AreaUpdate { notify: false, event: None }
}

fn changed(text: &str) -> AreaUpdate {
    AreaUpdate { notify: true, event: Some(TextAreaEvent::TextChanged(text.to_string())) }
}

#[test]
fn a_new_area_is_empty() {
    let area = TextArea::new("Request Body...");
    assert_eq!(area.text(), "");
    assert_eq!(area.placeholder(), "Request Body...");
    assert_eq!(area.cursor_offset(), 0);
}

#[test]
fn area_set_text_puts_the_caret_at_the_end() {
    let mut area = TextArea::new("");
    assert_eq!(area.set_text("{\"a\": 1}"), changed("{\"a\": 1}"));
    assert_eq!(area.text(), "{\"a\": 1}");
    assert_eq!(area.cursor_offset(), 8);
}

#[test]
fn area_enter_begins_a_new_line() {
    let mut area = TextArea::new("");
    area.set_text("ab");
    area.on_key_down("left", PLAIN);
    assert_eq!(area.on_key_down("enter", PLAIN), changed("a\nb"));
    assert_eq!(area.cursor_offset(), 2);
}

#[test]
fn area_keys_type_themselves() {
    let mut area = TextArea::new("");
    assert_eq!(area.on_key_down("h", PLAIN), changed("h"));
    assert_eq!(area.on_key_down("i", SHIFT), changed("hi"));
    assert_eq!(area.cursor_offset(), 2);
    area.on_key_down("left", PLAIN);
    assert_eq!(area.on_key_down("!", PLAIN), changed("h!i"));
    assert_eq!(area.cursor_offset(), 2);
}

#[test]
fn area_ignores_keys_with_control_or_platform() {
    let mut area = TextArea::new("");
    area.set_text("x");
    assert_eq!(area.on_key_down("a", CONTROL), nothing());
    assert_eq!(area.on_key_down("v", PLATFORM), nothing());
    assert_eq!(area.text(), "x");
}

#[test]
fn area_ignores_named_keys_and_wide_characters() {
    let mut area = TextArea::new("");
    area.set_text("x");
    for key in ["tab", "escape", "delete", "é", ""] {
        assert_eq!(area.on_key_down(key, PLAIN), nothing());
    }
    assert_eq!(area.text(), "x");
    assert_eq!(area.cursor_offset(), 1);
}

#[test]
fn area_left_and_right_move_by_clusters() {
    let mut area = TextArea::new("");
    area.set_text("a\r\ne\u{301}");
    assert_eq!(area.on_key_down("left", PLAIN), repaint());
    assert_eq!(area.cursor_offset(), 3);
    assert_eq!(area.on_key_down("left", SHIFT), repaint());
    assert_eq!(area.cursor_offset(), 1);
    assert_eq!(area.on_key_down("right", PLAIN), repaint());
    assert_eq!(area.cursor_offset(), 3);
    area.on_key_down("right", PLAIN);
    area.on_key_down("right", PLAIN);
    assert_eq!(area.cursor_offset(), 6);
}

#[test]
fn area_backspace_removes_one_cluster() {
    let mut area = TextArea::new("");
    area.set_text("a🇷🇺");
    assert_eq!(area.on_key_down("backspace", PLAIN), changed("a"));
    assert_eq!(area.on_key_down("backspace", PLAIN), changed(""));
    assert_eq!(area.on_key_down("backspace", PLAIN), nothing());
    assert_eq!(area.cursor_offset(), 0);
}

#[test]
fn area_update_drops_the_submit_event() {
    let submit = Update { notify: false, event: Some(TextInputEvent::EnterPressed) };
    assert_eq!(AreaUpdate::from_update(submit), nothing());
    let edit = Update { notify: true, event: Some(TextInputEvent::TextChanged("x".to_string())) };
    assert_eq!(AreaUpdate::from_update(edit), changed("x"));
}
