use octty::input::{live_terminal_input_from_key_parts, LiveTerminalKey};
use octty::metrics::first_font_family;
use octty::paste::terminal_paste_bytes;

#[test]
fn main_printable_keys_become_terminal_text() {
    let input = live_terminal_input_from_key_parts("a", Some("a"), false, false, false, false, false)
        .expect("printable input");
    assert_eq!(input.key, LiveTerminalKey::Character('a'));
    assert_eq!(input.text.as_deref(), Some("a"));

    let shifted = live_terminal_input_from_key_parts("a", Some("A"), false, false, true, false, false)
        .expect("shifted input");
    assert_eq!(shifted.key, LiveTerminalKey::Character('a'));
    assert_eq!(shifted.text.as_deref(), Some("A"));
    assert!(shifted.modifiers.shift);
}

#[test]
fn main_named_keys_become_terminal_keys() {
    let enter = live_terminal_input_from_key_parts("enter", None, false, false, false, false, false)
        .expect("enter input");
    assert_eq!(enter.key, LiveTerminalKey::Enter);

    let backspace =
        live_terminal_input_from_key_parts("backspace", None, false, false, false, false, false)
            .expect("backspace input");
    assert_eq!(backspace.key, LiveTerminalKey::Backspace);
}

#[test]
fn main_terminal_input_preserves_workspace_shortcuts() {
    assert_eq!(live_terminal_input_from_key_parts("1", Some("!"), true, false, true, false, false), None);
}

#[test]
fn main_terminal_input_preserves_paste_shortcut() {
    assert_eq!(live_terminal_input_from_key_parts("v", Some("V"), true, false, true, false, false), None);
}

#[test]
fn main_terminal_input_preserves_pane_action_shortcuts() {
    assert_eq!(live_terminal_input_from_key_parts("left", None, true, false, true, false, false), None);
    assert_eq!(live_terminal_input_from_key_parts("w", Some("W"), true, false, true, false, false), None);
}

#[test]
fn main_terminal_input_preserves_column_resize_shortcuts() {
    assert_eq!(live_terminal_input_from_key_parts("left", None, true, true, false, false, false), None);
    assert_eq!(live_terminal_input_from_key_parts("right", None, true, true, false, false, false), None);
}

#[test]
fn main_control_letters_keep_control_modifier_for_encoder() {
    let input = live_terminal_input_from_key_parts("c", None, true, false, false, false, false)
        .expect("control input");
    assert_eq!(input.key, LiveTerminalKey::Character('c'));
    assert!(input.modifiers.control);
}

#[test]
fn main_css_font_stack_prefers_first_real_family() {
    assert_eq!(first_font_family("\"Iosevka Term\", monospace").as_deref(), Some("Iosevka Term"));
    assert_eq!(first_font_family("monospace, \"JetBrains Mono\"").as_deref(), Some("JetBrains Mono"));
}

#[test]
fn main_terminal_paste_normalizes_newlines_to_carriage_returns() {
    assert_eq!(terminal_paste_bytes("one\ntwo\r\nthree"), b"one\rtwo\rthree");
}
