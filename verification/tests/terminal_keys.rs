use pmux::input::xterm_escape::KeyModifiers;
use pmux::shell_integration::{MarkerKind, ShellMarker, ShellState};
use pmux::terminal::input::{key_to_bytes, KeyPress};
use pmux::terminal::viewport::{viewport_lines, visible_markers};

fn make_event(key: &str, ctrl: bool, shift: bool, alt: bool) -> KeyPress {
    KeyPress {
        key: key.to_string(),
        key_char: None,
        modifiers: KeyModifiers { platform: false, shift, alt, ctrl },
    }
}

#[test]
fn test_ctrl_c() {
    let ev = make_event("c", true, false, false);
    assert_eq!(key_to_bytes(&ev, false, false), Some(vec![3]));
}

#[test]
fn input_test_enter() {
    let ev = make_event("enter", false, false, false);
    assert_eq!(key_to_bytes(&ev, false, false), Some(b"\r".to_vec()));
}

#[test]
fn test_arrow_normal_mode() {
    let ev = make_event("up", false, false, false);
    assert_eq!(key_to_bytes(&ev, false, false), Some(b"\x1b[A".to_vec()));
}

#[test]
fn test_arrow_app_cursor_mode() {
    let ev = make_event("up", false, false, false);
    assert_eq!(key_to_bytes(&ev, true, false), Some(b"\x1bOA".to_vec()));
}

#[test]
fn input_test_backspace() {
    let ev = make_event("backspace", false, false, false);
    assert_eq!(key_to_bytes(&ev, false, false), Some(b"\x7f".to_vec()));
}

#[test]
fn input_test_tab() {
    let ev = make_event("tab", false, false, false);
    assert_eq!(key_to_bytes(&ev, false, false), Some(b"\t".to_vec()));
    let shift_ev = make_event("tab", false, true, false);
    assert_eq!(key_to_bytes(&shift_ev, false, false), Some(b"\x1b[Z".to_vec()));
}

#[test]
fn typed_text_is_left_to_text_input_unless_alt() {
    let mut ev = make_event("a", false, false, false);
    ev.key_char = Some("a".to_string());
    assert_eq!(key_to_bytes(&ev, false, false), None);
    let mut ev = make_event("é", false, false, true);
    ev.key_char = Some("é".to_string());
    assert_eq!(key_to_bytes(&ev, false, false), Some(vec![0x1b, 0xc3, 0xa9]));
}

#[test]
fn more_terminal_keys() {
    assert_eq!(key_to_bytes(&make_event("A", true, false, false), false, false), Some(vec![1]));
    assert_eq!(key_to_bytes(&make_event("[", true, false, false), false, false), Some(vec![0x1b]));
    assert_eq!(key_to_bytes(&make_event("enter", false, true, false), false, false), Some(b"\n".to_vec()));
    assert_eq!(key_to_bytes(&make_event("up", false, true, false), true, false), Some(b"\x1b[1;2A".to_vec()));
    assert_eq!(key_to_bytes(&make_event("home", true, false, false), false, false), Some(b"\x1b[1;5H".to_vec()));
    assert_eq!(key_to_bytes(&make_event("f5", false, false, false), false, false), Some(b"\x1b[15~".to_vec()));
    assert_eq!(key_to_bytes(&make_event("x", false, false, false), false, false), Some(b"x".to_vec()));
    assert_eq!(key_to_bytes(&make_event("unknown", false, false, false), false, false), None);
    let mut cmd_left = make_event("left", false, false, false);
    cmd_left.modifiers.platform = true;
    assert_eq!(key_to_bytes(&cmd_left, false, true), Some(vec![0x01]));
    assert_eq!(key_to_bytes(&make_event("left", false, false, true), false, true), Some(b"\x1bb".to_vec()));
    assert_eq!(key_to_bytes(&make_event("left", false, false, true), false, false), Some(b"\x1b[1;3D".to_vec()));
}

fn marker(line: usize) -> ShellMarker {
    ShellMarker { kind: MarkerKind::PromptStart, line, column: 0, timestamp: 0, exit_code: None }
}

#[test]
fn markers_in_the_viewport() {
    let rows = viewport_lines(&vec![-2, -2, -1, -1, 0, 0, 1]);
    assert_eq!(rows, vec![-2, -1, 0, 1]);
    let markers = vec![marker(0), marker(1), marker(5)];
    let shown = visible_markers(&markers, &rows, 2, 4);
    let lines: Vec<usize> = shown.iter().map(|m| m.line).collect();
    assert_eq!(lines, vec![0, 1]);
    assert!(visible_markers(&markers, &rows, 0, 2).is_empty());
}

#[test]
fn click_on_prompt_line() {
    let mut s = ShellState::new();
    assert_eq!(s.click_to_prompt(5), None);
    s.add_marker(marker(7));
    assert_eq!(s.click_to_prompt(5), Some((7, 5)));
}
