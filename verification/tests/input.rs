use pmux::input::xterm_escape::{key_to_xterm_escape, modifier_param, KeyModifiers};
use pmux::input_handler::{key_to_tmux, InputHandler};

fn no_mods() -> KeyModifiers {
    KeyModifiers::default()
}

#[test]
fn xterm_escape_test_enter() {
    let b = key_to_xterm_escape("enter", no_mods()).unwrap();
    assert_eq!(b, vec![b'\r']);
}

#[test]
fn xterm_escape_test_backspace() {
    let b = key_to_xterm_escape("backspace", no_mods()).unwrap();
    assert_eq!(b, vec![0x7f]);
}

#[test]
fn test_escape() {
    let b = key_to_xterm_escape("escape", no_mods()).unwrap();
    assert_eq!(b, vec![0x1b]);
}

#[test]
fn xterm_escape_test_tab() {
    let b = key_to_xterm_escape("tab", no_mods()).unwrap();
    assert_eq!(b, vec![b'\t']);
}

#[test]
fn xterm_escape_test_arrow_keys() {
    assert_eq!(key_to_xterm_escape("up", no_mods()).unwrap(), vec![0x1b, b'[', b'A']);
    assert_eq!(key_to_xterm_escape("down", no_mods()).unwrap(), vec![0x1b, b'[', b'B']);
    assert_eq!(key_to_xterm_escape("left", no_mods()).unwrap(), vec![0x1b, b'[', b'D']);
    assert_eq!(key_to_xterm_escape("right", no_mods()).unwrap(), vec![0x1b, b'[', b'C']);
}

#[test]
fn test_home_end() {
    assert_eq!(key_to_xterm_escape("home", no_mods()).unwrap(), vec![0x1b, b'[', b'H']);
    assert_eq!(key_to_xterm_escape("end", no_mods()).unwrap(), vec![0x1b, b'[', b'F']);
}

#[test]
fn test_f1_f4() {
    assert_eq!(key_to_xterm_escape("f1", no_mods()).unwrap(), vec![0x1b, b'O', b'P']);
    assert_eq!(key_to_xterm_escape("f4", no_mods()).unwrap(), vec![0x1b, b'O', b'S']);
}

#[test]
fn test_ctrl_a() {
    let m = KeyModifiers { ctrl: true, ..no_mods() };
    assert_eq!(key_to_xterm_escape("a", m).unwrap(), vec![0x01]);
}

#[test]
fn test_cmd_intercepted() {
    let m = KeyModifiers { platform: true, ..no_mods() };
    assert!(key_to_xterm_escape("b", m).is_none());
    assert!(key_to_xterm_escape("a", m).is_none());
}

#[test]
fn test_regular_char() {
    assert_eq!(key_to_xterm_escape("a", no_mods()).unwrap(), vec![b'a']);
    assert_eq!(key_to_xterm_escape("z", no_mods()).unwrap(), vec![b'z']);
}

#[test]
fn modified_arrow_uses_xterm_parameter() {
    let shift = KeyModifiers { shift: true, ..no_mods() };
    assert_eq!(modifier_param(shift), 2);
    assert_eq!(
        key_to_xterm_escape("up", shift).unwrap(),
        vec![0x1b, b'[', b'1', b';', b'2', b'A']
    );
    let all = KeyModifiers { shift: true, alt: true, ctrl: true, platform: false };
    assert_eq!(modifier_param(all), 8);
}

#[test]
fn test_input_handler_creation() {
    let handler = InputHandler::new("sdlc-myproject".to_string());
    assert_eq!(handler.session_name(), "sdlc-myproject");
}

#[test]
fn test_enter_key() {
    assert_eq!(key_to_tmux("enter", false), Some("Enter".to_string()));
}

#[test]
fn test_backspace_key() {
    assert_eq!(key_to_tmux("backspace", false), Some("BSpace".to_string()));
}

#[test]
fn input_handler_test_arrow_keys() {
    assert_eq!(key_to_tmux("up", false), Some("Up".to_string()));
    assert_eq!(key_to_tmux("down", false), Some("Down".to_string()));
    assert_eq!(key_to_tmux("left", false), Some("Left".to_string()));
    assert_eq!(key_to_tmux("right", false), Some("Right".to_string()));
}

#[test]
fn test_escape_tab() {
    assert_eq!(key_to_tmux("escape", false), Some("Escape".to_string()));
    assert_eq!(key_to_tmux("tab", false), Some("Tab".to_string()));
}

#[test]
fn test_cmd_key_intercepted() {
    assert_eq!(key_to_tmux("b", true), None);
    assert_eq!(key_to_tmux("n", true), None);
}

#[test]
fn test_regular_char_passthrough() {
    assert_eq!(key_to_tmux("a", false), Some("a".to_string()));
    assert_eq!(key_to_tmux("z", false), Some("z".to_string()));
}
