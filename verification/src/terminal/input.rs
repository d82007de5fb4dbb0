//! Key presses in the terminal view turned into the bytes written to the terminal.
use vstd::prelude::*;
use vstd::utf8::encode_utf8;
use crate::input::xterm_escape::{KeyModifiers, modifier_param, modifier_param_spec, escape_csi, csi_spec, bytes_of};
use crate::text::str_equal;

verus! {

/// A key press as the window system reports it: the key name, the text it types (if
/// any) and the modifiers held.
#[derive(Debug, Clone)]
pub struct KeyPress {
    pub key: String,
    pub key_char: Option<String>,
    pub modifiers: KeyModifiers,
}

/// An ASCII letter.
pub open spec fn is_ascii_alpha(b: u8) -> bool {
    (0x41 <= b && b <= 0x5a) || (0x61 <= b && b <= 0x7a)
}

/// The lower-case form of an ASCII letter.
pub open spec fn ascii_lower(b: u8) -> u8 {
    if 0x41 <= b && b <= 0x5a { (b + 0x20) as u8 } else { b }
}

/// Final byte of the cursor sequence of an arrow key.
pub open spec fn arrow_final(key: Seq<char>) -> Option<u8> {
    if key == "up"@ { Some(0x41u8) }
    else if key == "down"@ { Some(0x42u8) }
    else if key == "right"@ { Some(0x43u8) }
    else if key == "left"@ { Some(0x44u8) }
    else { None }
}

/// Cmd with an arrow or Backspace on macOS: start or end of line, scroll, kill line.
pub open spec fn mac_cmd_bytes(key: Seq<char>) -> Option<Seq<u8>> {
    if key == "left"@ { Some(seq![0x01u8]) }
    else if key == "right"@ { Some(seq![0x05u8]) }
    else if key == "up"@ { Some(seq![0x1bu8, 0x5bu8, 0x31u8, 0x3bu8, 0x35u8, 0x41u8]) }
    else if key == "down"@ { Some(seq![0x1bu8, 0x5bu8, 0x31u8, 0x3bu8, 0x35u8, 0x42u8]) }
    else if key == "backspace"@ { Some(seq![0x15u8]) }
    else { None }
}

/// Option with an arrow or Backspace on macOS: word left, word right, delete word.
pub open spec fn mac_alt_bytes(key: Seq<char>) -> Option<Seq<u8>> {
    if key == "left"@ { Some(seq![0x1bu8, 0x62u8]) }
    else if key == "right"@ { Some(seq![0x1bu8, 0x66u8]) }
    else if key == "backspace"@ { Some(seq![0x17u8]) }
    else { None }
}

/// Keys that type no text: editing and function keys, Home and End with the modifier
/// parameter, and otherwise a one-byte key name as itself.
pub open spec fn special_key_bytes(key: Seq<char>, m: KeyModifiers) -> Option<Seq<u8>> {
    if key == "backspace"@ { Some(seq![0x7fu8]) }
    else if key == "escape"@ { Some(seq![0x1bu8]) }
    else if key == "home"@ { Some(csi_spec(m, 0x48u8)) }
    else if key == "end"@ { Some(csi_spec(m, 0x46u8)) }
    else if key == "pageup"@ { Some(seq![0x1bu8, 0x5bu8, 0x35u8, 0x7eu8]) }
    else if key == "pagedown"@ { Some(seq![0x1bu8, 0x5bu8, 0x36u8, 0x7eu8]) }
    else if key == "delete"@ { Some(seq![0x1bu8, 0x5bu8, 0x33u8, 0x7eu8]) }
    else if key == "f1"@ { Some(seq![0x1bu8, 0x4fu8, 0x50u8]) }
    else if key == "f2"@ { Some(seq![0x1bu8, 0x4fu8, 0x51u8]) }
    else if key == "f3"@ { Some(seq![0x1bu8, 0x4fu8, 0x52u8]) }
    else if key == "f4"@ { Some(seq![0x1bu8, 0x4fu8, 0x53u8]) }
    else if key == "f5"@ { Some(seq![0x1bu8, 0x5bu8, 0x31u8, 0x35u8, 0x7eu8]) }
    else if key == "f6"@ { Some(seq![0x1bu8, 0x5bu8, 0x31u8, 0x37u8, 0x7eu8]) }
    else if key == "f7"@ { Some(seq![0x1bu8, 0x5bu8, 0x31u8, 0x38u8, 0x7eu8]) }
    else if key == "f8"@ { Some(seq![0x1bu8, 0x5bu8, 0x31u8, 0x39u8, 0x7eu8]) }
    else if key == "f9"@ { Some(seq![0x1bu8, 0x5bu8, 0x32u8, 0x30u8, 0x7eu8]) }
    else if key == "f10"@ { Some(seq![0x1bu8, 0x5bu8, 0x32u8, 0x31u8, 0x7eu8]) }
    else if key == "f11"@ { Some(seq![0x1bu8, 0x5bu8, 0x32u8, 0x33u8, 0x7eu8]) }
    else if key == "f12"@ { Some(seq![0x1bu8, 0x5bu8, 0x32u8, 0x34u8, 0x7eu8]) }
    else if encode_utf8(key).len() == 1 { Some(encode_utf8(key)) }
    else { None }
}

/// Whether only Ctrl is held.
pub open spec fn ctrl_only(m: KeyModifiers) -> bool {
    m.ctrl && !m.shift && !m.alt && !m.platform
}

/// The bytes for a key press, in this order of rules: Ctrl with a letter gives its
/// control byte and Ctrl+`[` gives ESC; Tab (Shift+Tab is `ESC [ Z`); Enter (Shift+Enter
/// is a line feed); on macOS the Cmd and Option line and word bindings; arrows (`ESC O`
/// in application cursor mode, the modifier parameter when modifiers are held); a key
/// that types text is left to the text input (`None`) unless Alt is held, which sends
/// ESC and the text; then the special keys. `None` means nothing is written here.
pub open spec fn key_bytes_spec(key: Seq<char>, key_char: Option<Seq<char>>, m: KeyModifiers, app_cursor: bool, macos: bool) -> Option<Seq<u8>> {
    let b = encode_utf8(key);
    if ctrl_only(m) && b.len() == 1 && is_ascii_alpha(b[0]) {
        Some(seq![(ascii_lower(b[0]) - 0x60) as u8])
    } else if ctrl_only(m) && key == "["@ {
        Some(seq![0x1bu8])
    } else if key == "tab"@ {
        Some(if m.shift { seq![0x1bu8, 0x5bu8, 0x5au8] } else { seq![0x09u8] })
    } else if key == "enter"@ || key == "return"@ || key == "kp_enter"@ {
        Some(if m.shift { seq![0x0au8] } else { seq![0x0du8] })
    } else if macos && m.platform && !m.alt && !m.ctrl && mac_cmd_bytes(key) is Some {
        mac_cmd_bytes(key)
    } else if macos && m.alt && !m.platform && !m.ctrl && mac_alt_bytes(key) is Some {
        mac_alt_bytes(key)
    } else if arrow_final(key) is Some {
        let f = arrow_final(key)->0;
        Some(if modifier_param_spec(m) == 1 && app_cursor { seq![0x1bu8, 0x4fu8, f] } else { csi_spec(m, f) })
    } else if key_char is Some && key_char->0.len() > 0 {
        if m.alt { Some(seq![0x1bu8] + encode_utf8(key_char->0)) } else { None }
    } else {
        special_key_bytes(key, m)
    }
}

fn arrow_key(key: &str) -> (r: Option<u8>)
    ensures
        r == arrow_final(key@),
{
    if str_equal(key, "up") { Some(0x41) }
    else if str_equal(key, "down") { Some(0x42) }
    else if str_equal(key, "right") { Some(0x43) }
    else if str_equal(key, "left") { Some(0x44) }
    else { None }
}

fn mac_cmd_key(key: &str) -> (r: Option<Vec<u8>>)
    ensures
        match r { Some(v) => mac_cmd_bytes(key@) == Some(v@), None => mac_cmd_bytes(key@) is None },
{
    if str_equal(key, "left") { Some(vec![0x01]) }
    else if str_equal(key, "right") { Some(vec![0x05]) }
    else if str_equal(key, "up") { Some(vec![0x1b, 0x5b, 0x31, 0x3b, 0x35, 0x41]) }
    else if str_equal(key, "down") { Some(vec![0x1b, 0x5b, 0x31, 0x3b, 0x35, 0x42]) }
    else if str_equal(key, "backspace") { Some(vec![0x15]) }
    else { None }
}

fn mac_alt_key(key: &str) -> (r: Option<Vec<u8>>)
    ensures
        match r { Some(v) => mac_alt_bytes(key@) == Some(v@), None => mac_alt_bytes(key@) is None },
{
    if str_equal(key, "left") { Some(vec![0x1b, 0x62]) }
    else if str_equal(key, "right") { Some(vec![0x1b, 0x66]) }
    else if str_equal(key, "backspace") { Some(vec![0x17]) }
    else { None }
}

fn special_key(key: &str, m: KeyModifiers) -> (r: Option<Vec<u8>>)
    ensures
        match r { Some(v) => special_key_bytes(key@, m) == Some(v@), None => special_key_bytes(key@, m) is None },
{
    if str_equal(key, "backspace") { Some(vec![0x7f]) }
    else if str_equal(key, "escape") { Some(vec![0x1b]) }
    else if str_equal(key, "home") { Some(escape_csi(m, 0x48)) }
    else if str_equal(key, "end") { Some(escape_csi(m, 0x46)) }
    else if str_equal(key, "pageup") { Some(vec![0x1b, 0x5b, 0x35, 0x7e]) }
    else if str_equal(key, "pagedown") { Some(vec![0x1b, 0x5b, 0x36, 0x7e]) }
    else if str_equal(key, "delete") { Some(vec![0x1b, 0x5b, 0x33, 0x7e]) }
    else if str_equal(key, "f1") { Some(vec![0x1b, 0x4f, 0x50]) }
    else if str_equal(key, "f2") { Some(vec![0x1b, 0x4f, 0x51]) }
    else if str_equal(key, "f3") { Some(vec![0x1b, 0x4f, 0x52]) }
    else if str_equal(key, "f4") { Some(vec![0x1b, 0x4f, 0x53]) }
    else if str_equal(key, "f5") { Some(vec![0x1b, 0x5b, 0x31, 0x35, 0x7e]) }
    else if str_equal(key, "f6") { Some(vec![0x1b, 0x5b, 0x31, 0x37, 0x7e]) }
    else if str_equal(key, "f7") { Some(vec![0x1b, 0x5b, 0x31, 0x38, 0x7e]) }
    else if str_equal(key, "f8") { Some(vec![0x1b, 0x5b, 0x31, 0x39, 0x7e]) }
    else if str_equal(key, "f9") { Some(vec![0x1b, 0x5b, 0x32, 0x30, 0x7e]) }
    else if str_equal(key, "f10") { Some(vec![0x1b, 0x5b, 0x32, 0x31, 0x7e]) }
    else if str_equal(key, "f11") { Some(vec![0x1b, 0x5b, 0x32, 0x33, 0x7e]) }
    else if str_equal(key, "f12") { Some(vec![0x1b, 0x5b, 0x32, 0x34, 0x7e]) }
    else {
        let b = key.as_bytes();
        if b.len() == 1 { Some(bytes_of(b)) } else { None }
    }
}

/// The bytes to write to the terminal for a key press; `app_cursor` is the terminal's
/// application cursor mode, and `macos` whether the macOS Cmd and Option bindings apply.
pub fn key_to_bytes(event: &KeyPress, app_cursor: bool, macos: bool) -> (r: Option<Vec<u8>>)
    ensures
        match r {
            Some(v) => key_bytes_spec(event.key@, match event.key_char { Some(c) => Some(c@), None => None }, event.modifiers, app_cursor, macos) == Some(v@),
            None => key_bytes_spec(event.key@, match event.key_char { Some(c) => Some(c@), None => None }, event.modifiers, app_cursor, macos) is None,
        },
{
    let key = event.key.as_str();
    let m = event.modifiers;
    let b = key.as_bytes();
    let ctrl_only = m.ctrl && !m.shift && !m.alt && !m.platform;
    if ctrl_only {
        if b.len() == 1 {
            let c = b[0];
            if 0x61 <= c && c <= 0x7a {
                return Some(vec![c - 0x60]);
            }
            if 0x41 <= c && c <= 0x5a {
                return Some(vec![c + 0x20 - 0x60]);
            }
        }
        if str_equal(key, "[") {
            return Some(vec![0x1b]);
        }
    }
    if str_equal(key, "tab") {
        return Some(if m.shift { vec![0x1b, 0x5b, 0x5a] } else { vec![0x09] });
    }
    if str_equal(key, "enter") || str_equal(key, "return") || str_equal(key, "kp_enter") {
        return Some(if m.shift { vec![0x0a] } else { vec![0x0d] });
    }
    if macos && m.platform && !m.alt && !m.ctrl {
        match mac_cmd_key(key) {
            Some(v) => { return Some(v); },
            None => {},
        }
    }
    if macos && m.alt && !m.platform && !m.ctrl {
        match mac_alt_key(key) {
            Some(v) => { return Some(v); },
            None => {},
        }
    }
    match arrow_key(key) {
        Some(f) => {
            if modifier_param(m) == 1 && app_cursor {
                return Some(vec![0x1b, 0x4f, f]);
            }
            return Some(escape_csi(m, f));
        },
        None => {},
    }
    match &event.key_char {
        Some(ch) => {
            if !ch.as_str().is_empty() {
                if m.alt {
                    let cb = ch.as_str().as_bytes();
                    let mut v: Vec<u8> = vec![0x1b];
                    let rest = bytes_of(cb);
                    let mut i: usize = 0;
                    while i < rest.len()
                        invariant
                            i <= rest@.len(),
                            v@ == seq![0x1bu8] + rest@.take(i as int),
                        decreases rest@.len() - i,
                    {
                        v.push(rest[i]);
                        proof { assert(v@ =~= seq![0x1bu8] + rest@.take(i + 1)); }
                        i = i + 1;
                    }
                    proof { assert(rest@.take(rest@.len() as int) =~= rest@); }
                    return Some(v);
                }
                return None;
            }
        },
        None => {},
    }
    special_key(key, m)
}

/// Ctrl with a letter always sends one control byte from 1 to 26, the same for the
/// upper- and lower-case letter, whatever else the press carries.
pub proof fn law_ctrl_letter_byte(key: Seq<char>, key_char: Option<Seq<char>>, m: KeyModifiers, app_cursor: bool, macos: bool)
    requires
        ctrl_only(m),
        encode_utf8(key).len() == 1,
        is_ascii_alpha(encode_utf8(key)[0]),
    ensures
        key_bytes_spec(key, key_char, m, app_cursor, macos) matches Some(b) && b.len() == 1 && 1 <= b[0] <= 26,
        key_bytes_spec(key, key_char, m, app_cursor, macos) == Some(seq![(ascii_lower(encode_utf8(key)[0]) - 0x60) as u8]),
{
}

/// Application cursor mode changes only unmodified arrows, which become `ESC O x`
/// instead of `ESC [ x`.
pub proof fn law_app_cursor_arrows(key: Seq<char>, m: KeyModifiers, macos: bool)
    requires
        arrow_final(key) is Some,
        modifier_param_spec(m) == 1,
        !m.platform,
    ensures
        key_bytes_spec(key, None, m, true, macos) == Some(seq![0x1bu8, 0x4fu8, arrow_final(key)->0]),
        key_bytes_spec(key, None, m, false, macos) == Some(seq![0x1bu8, 0x5bu8, arrow_final(key)->0]),
{
    reveal_strlit("up");
    reveal_strlit("down");
    reveal_strlit("right");
    reveal_strlit("left");
    reveal_strlit("[");
    reveal_strlit("tab");
    reveal_strlit("enter");
    reveal_strlit("return");
    reveal_strlit("kp_enter");
    assert(key != "["@ && key != "tab"@ && key != "enter"@ && key != "return"@ && key != "kp_enter"@);
}

proof fn lemma_encode_len(s: Seq<char>)
    ensures
        encode_utf8(s).len() >= s.len(),
    decreases s.len(),
{
    if s.len() > 0 {
        lemma_encode_len(s.drop_first());
    }
}

/// A key that is none of the names with a rule of their own, and not a single
/// character, falls through to the special keys.
proof fn lemma_special_path(key: Seq<char>, m: KeyModifiers, app_cursor: bool, macos: bool)
    requires
        key.len() >= 2,
        key != "tab"@, key != "enter"@, key != "return"@, key != "kp_enter"@,
        key != "up"@, key != "down"@, key != "right"@, key != "left"@, key != "backspace"@,
    ensures
        key_bytes_spec(key, None, m, app_cursor, macos) == special_key_bytes(key, m),
{
    lemma_encode_len(key);
    reveal_strlit("[");
    assert(key != "["@);
}

/// The editing and function keys, pressed without typing text, send the xterm
/// sequences whatever the modifiers and modes: Delete `ESC [ 3 ~`, Page Up `ESC [ 5 ~`,
/// Page Down `ESC [ 6 ~`, F1 to F4 `ESC O P` to `ESC O S`, and F5 to F12 `ESC [ n ~`
/// with n = 15, 17, 18, 19, 20, 21, 23, 24. No two of them send the same bytes.
pub proof fn law_editing_and_function_keys(m: KeyModifiers, app_cursor: bool, macos: bool)
    ensures
        key_bytes_spec("delete"@, None, m, app_cursor, macos) == Some(seq![0x1bu8, 0x5bu8, 0x33u8, 0x7eu8]),
        key_bytes_spec("pageup"@, None, m, app_cursor, macos) == Some(seq![0x1bu8, 0x5bu8, 0x35u8, 0x7eu8]),
        key_bytes_spec("pagedown"@, None, m, app_cursor, macos) == Some(seq![0x1bu8, 0x5bu8, 0x36u8, 0x7eu8]),
        key_bytes_spec("f1"@, None, m, app_cursor, macos) == Some(seq![0x1bu8, 0x4fu8, 0x50u8]),
        key_bytes_spec("f2"@, None, m, app_cursor, macos) == Some(seq![0x1bu8, 0x4fu8, 0x51u8]),
        key_bytes_spec("f3"@, None, m, app_cursor, macos) == Some(seq![0x1bu8, 0x4fu8, 0x52u8]),
        key_bytes_spec("f4"@, None, m, app_cursor, macos) == Some(seq![0x1bu8, 0x4fu8, 0x53u8]),
        key_bytes_spec("f5"@, None, m, app_cursor, macos) == Some(seq![0x1bu8, 0x5bu8, 0x31u8, 0x35u8, 0x7eu8]),
        key_bytes_spec("f6"@, None, m, app_cursor, macos) == Some(seq![0x1bu8, 0x5bu8, 0x31u8, 0x37u8, 0x7eu8]),
        key_bytes_spec("f7"@, None, m, app_cursor, macos) == Some(seq![0x1bu8, 0x5bu8, 0x31u8, 0x38u8, 0x7eu8]),
        key_bytes_spec("f8"@, None, m, app_cursor, macos) == Some(seq![0x1bu8, 0x5bu8, 0x31u8, 0x39u8, 0x7eu8]),
        key_bytes_spec("f9"@, None, m, app_cursor, macos) == Some(seq![0x1bu8, 0x5bu8, 0x32u8, 0x30u8, 0x7eu8]),
        key_bytes_spec("f10"@, None, m, app_cursor, macos) == Some(seq![0x1bu8, 0x5bu8, 0x32u8, 0x31u8, 0x7eu8]),
        key_bytes_spec("f11"@, None, m, app_cursor, macos) == Some(seq![0x1bu8, 0x5bu8, 0x32u8, 0x33u8, 0x7eu8]),
        key_bytes_spec("f12"@, None, m, app_cursor, macos) == Some(seq![0x1bu8, 0x5bu8, 0x32u8, 0x34u8, 0x7eu8]),
{
    reveal_strlit("up");
    reveal_strlit("down");
    reveal_strlit("right");
    reveal_strlit("left");
    reveal_strlit("[");
    reveal_strlit("tab");
    reveal_strlit("enter");
    reveal_strlit("return");
    reveal_strlit("kp_enter");
    reveal_strlit("backspace");
    reveal_strlit("escape");
    reveal_strlit("home");
    reveal_strlit("end");
    reveal_strlit("pageup");
    reveal_strlit("pagedown");
    reveal_strlit("delete");
    reveal_strlit("f1");
    reveal_strlit("f2");
    reveal_strlit("f3");
    reveal_strlit("f4");
    reveal_strlit("f5");
    reveal_strlit("f6");
    reveal_strlit("f7");
    reveal_strlit("f8");
    reveal_strlit("f9");
    reveal_strlit("f10");
    reveal_strlit("f11");
    reveal_strlit("f12");
    assert(key_bytes_spec("delete"@, None, m, app_cursor, macos) == Some(seq![0x1bu8, 0x5bu8, 0x33u8, 0x7eu8])) by {
        assert("delete"@.len() != "tab"@.len());
        assert("delete"@.len() != "enter"@.len());
        assert("delete"@[0] != "return"@[0]);
        assert("delete"@.len() != "kp_enter"@.len());
        assert("delete"@.len() != "up"@.len());
        assert("delete"@.len() != "down"@.len());
        assert("delete"@.len() != "right"@.len());
        assert("delete"@.len() != "left"@.len());
        assert("delete"@.len() != "backspace"@.len());
        assert("delete"@.len() != "backspace"@.len());
        assert("delete"@[0] != "escape"@[0]);
        assert("delete"@.len() != "home"@.len());
        assert("delete"@.len() != "end"@.len());
        assert("delete"@[0] != "pageup"@[0]);
        assert("delete"@.len() != "pagedown"@.len());
        lemma_special_path("delete"@, m, app_cursor, macos);
    }
    assert(key_bytes_spec("pageup"@, None, m, app_cursor, macos) == Some(seq![0x1bu8, 0x5bu8, 0x35u8, 0x7eu8])) by {
        assert("pageup"@.len() != "tab"@.len());
        assert("pageup"@.len() != "enter"@.len());
        assert("pageup"@[0] != "return"@[0]);
        assert("pageup"@.len() != "kp_enter"@.len());
        assert("pageup"@.len() != "up"@.len());
        assert("pageup"@.len() != "down"@.len());
        assert("pageup"@.len() != "right"@.len());
        assert("pageup"@.len() != "left"@.len());
        assert("pageup"@.len() != "backspace"@.len());
        assert("pageup"@.len() != "backspace"@.len());
        assert("pageup"@[0] != "escape"@[0]);
        assert("pageup"@.len() != "home"@.len());
        assert("pageup"@.len() != "end"@.len());
        lemma_special_path("pageup"@, m, app_cursor, macos);
    }
    assert(key_bytes_spec("pagedown"@, None, m, app_cursor, macos) == Some(seq![0x1bu8, 0x5bu8, 0x36u8, 0x7eu8])) by {
        assert("pagedown"@.len() != "tab"@.len());
        assert("pagedown"@.len() != "enter"@.len());
        assert("pagedown"@.len() != "return"@.len());
        assert("pagedown"@[0] != "kp_enter"@[0]);
        assert("pagedown"@.len() != "up"@.len());
        assert("pagedown"@.len() != "down"@.len());
        assert("pagedown"@.len() != "right"@.len());
        assert("pagedown"@.len() != "left"@.len());
        assert("pagedown"@.len() != "backspace"@.len());
        assert("pagedown"@.len() != "backspace"@.len());
        assert("pagedown"@.len() != "escape"@.len());
        assert("pagedown"@.len() != "home"@.len());
        assert("pagedown"@.len() != "end"@.len());
        assert("pagedown"@.len() != "pageup"@.len());
        lemma_special_path("pagedown"@, m, app_cursor, macos);
    }
    assert(key_bytes_spec("f1"@, None, m, app_cursor, macos) == Some(seq![0x1bu8, 0x4fu8, 0x50u8])) by {
        assert("f1"@.len() != "tab"@.len());
        assert("f1"@.len() != "enter"@.len());
        assert("f1"@.len() != "return"@.len());
        assert("f1"@.len() != "kp_enter"@.len());
        assert("f1"@[0] != "up"@[0]);
        assert("f1"@.len() != "down"@.len());
        assert("f1"@.len() != "right"@.len());
        assert("f1"@.len() != "left"@.len());
        assert("f1"@.len() != "backspace"@.len());
        assert("f1"@.len() != "backspace"@.len());
        assert("f1"@.len() != "escape"@.len());
        assert("f1"@.len() != "home"@.len());
        assert("f1"@.len() != "end"@.len());
        assert("f1"@.len() != "pageup"@.len());
        assert("f1"@.len() != "pagedown"@.len());
        assert("f1"@.len() != "delete"@.len());
        lemma_special_path("f1"@, m, app_cursor, macos);
    }
    assert(key_bytes_spec("f2"@, None, m, app_cursor, macos) == Some(seq![0x1bu8, 0x4fu8, 0x51u8])) by {
        assert("f2"@.len() != "tab"@.len());
        assert("f2"@.len() != "enter"@.len());
        assert("f2"@.len() != "return"@.len());
        assert("f2"@.len() != "kp_enter"@.len());
        assert("f2"@[0] != "up"@[0]);
        assert("f2"@.len() != "down"@.len());
        assert("f2"@.len() != "right"@.len());
        assert("f2"@.len() != "left"@.len());
        assert("f2"@.len() != "backspace"@.len());
        assert("f2"@.len() != "backspace"@.len());
        assert("f2"@.len() != "escape"@.len());
        assert("f2"@.len() != "home"@.len());
        assert("f2"@.len() != "end"@.len());
        assert("f2"@.len() != "pageup"@.len());
        assert("f2"@.len() != "pagedown"@.len());
        assert("f2"@.len() != "delete"@.len());
        assert("f2"@[1] != "f1"@[1]);
        lemma_special_path("f2"@, m, app_cursor, macos);
    }
    assert(key_bytes_spec("f3"@, None, m, app_cursor, macos) == Some(seq![0x1bu8, 0x4fu8, 0x52u8])) by {
        assert("f3"@.len() != "tab"@.len());
        assert("f3"@.len() != "enter"@.len());
        assert("f3"@.len() != "return"@.len());
        assert("f3"@.len() != "kp_enter"@.len());
        assert("f3"@[0] != "up"@[0]);
        assert("f3"@.len() != "down"@.len());
        assert("f3"@.len() != "right"@.len());
        assert("f3"@.len() != "left"@.len());
        assert("f3"@.len() != "backspace"@.len());
        assert("f3"@.len() != "backspace"@.len());
        assert("f3"@.len() != "escape"@.len());
        assert("f3"@.len() != "home"@.len());
        assert("f3"@.len() != "end"@.len());
        assert("f3"@.len() != "pageup"@.len());
        assert("f3"@.len() != "pagedown"@.len());
        assert("f3"@.len() != "delete"@.len());
        assert("f3"@[1] != "f1"@[1]);
        assert("f3"@[1] != "f2"@[1]);
        lemma_special_path("f3"@, m, app_cursor, macos);
    }
    assert(key_bytes_spec("f4"@, None, m, app_cursor, macos) == Some(seq![0x1bu8, 0x4fu8, 0x53u8])) by {
        assert("f4"@.len() != "tab"@.len());
        assert("f4"@.len() != "enter"@.len());
        assert("f4"@.len() != "return"@.len());
        assert("f4"@.len() != "kp_enter"@.len());
        assert("f4"@[0] != "up"@[0]);
        assert("f4"@.len() != "down"@.len());
        assert("f4"@.len() != "right"@.len());
        assert("f4"@.len() != "left"@.len());
        assert("f4"@.len() != "backspace"@.len());
        assert("f4"@.len() != "backspace"@.len());
        assert("f4"@.len() != "escape"@.len());
        assert("f4"@.len() != "home"@.len());
        assert("f4"@.len() != "end"@.len());
        assert("f4"@.len() != "pageup"@.len());
        assert("f4"@.len() != "pagedown"@.len());
        assert("f4"@.len() != "delete"@.len());
        assert("f4"@[1] != "f1"@[1]);
        assert("f4"@[1] != "f2"@[1]);
        assert("f4"@[1] != "f3"@[1]);
        lemma_special_path("f4"@, m, app_cursor, macos);
    }
    assert(key_bytes_spec("f5"@, None, m, app_cursor, macos) == Some(seq![0x1bu8, 0x5bu8, 0x31u8, 0x35u8, 0x7eu8])) by {
        assert("f5"@.len() != "tab"@.len());
        assert("f5"@.len() != "enter"@.len());
        assert("f5"@.len() != "return"@.len());
        assert("f5"@.len() != "kp_enter"@.len());
        assert("f5"@[0] != "up"@[0]);
        assert("f5"@.len() != "down"@.len());
        assert("f5"@.len() != "right"@.len());
        assert("f5"@.len() != "left"@.len());
        assert("f5"@.len() != "backspace"@.len());
        assert("f5"@.len() != "backspace"@.len());
        assert("f5"@.len() != "escape"@.len());
        assert("f5"@.len() != "home"@.len());
        assert("f5"@.len() != "end"@.len());
        assert("f5"@.len() != "pageup"@.len());
        assert("f5"@.len() != "pagedown"@.len());
        assert("f5"@.len() != "delete"@.len());
        assert("f5"@[1] != "f1"@[1]);
        assert("f5"@[1] != "f2"@[1]);
        assert("f5"@[1] != "f3"@[1]);
        assert("f5"@[1] != "f4"@[1]);
        lemma_special_path("f5"@, m, app_cursor, macos);
    }
    assert(key_bytes_spec("f6"@, None, m, app_cursor, macos) == Some(seq![0x1bu8, 0x5bu8, 0x31u8, 0x37u8, 0x7eu8])) by {
        assert("f6"@.len() != "tab"@.len());
        assert("f6"@.len() != "enter"@.len());
        assert("f6"@.len() != "return"@.len());
        assert("f6"@.len() != "kp_enter"@.len());
        assert("f6"@[0] != "up"@[0]);
        assert("f6"@.len() != "down"@.len());
        assert("f6"@.len() != "right"@.len());
        assert("f6"@.len() != "left"@.len());
        assert("f6"@.len() != "backspace"@.len());
        assert("f6"@.len() != "backspace"@.len());
        assert("f6"@.len() != "escape"@.len());
        assert("f6"@.len() != "home"@.len());
        assert("f6"@.len() != "end"@.len());
        assert("f6"@.len() != "pageup"@.len());
        assert("f6"@.len() != "pagedown"@.len());
        assert("f6"@.len() != "delete"@.len());
        assert("f6"@[1] != "f1"@[1]);
        assert("f6"@[1] != "f2"@[1]);
        assert("f6"@[1] != "f3"@[1]);
        assert("f6"@[1] != "f4"@[1]);
        assert("f6"@[1] != "f5"@[1]);
        lemma_special_path("f6"@, m, app_cursor, macos);
    }
    assert(key_bytes_spec("f7"@, None, m, app_cursor, macos) == Some(seq![0x1bu8, 0x5bu8, 0x31u8, 0x38u8, 0x7eu8])) by {
        assert("f7"@.len() != "tab"@.len());
        assert("f7"@.len() != "enter"@.len());
        assert("f7"@.len() != "return"@.len());
        assert("f7"@.len() != "kp_enter"@.len());
        assert("f7"@[0] != "up"@[0]);
        assert("f7"@.len() != "down"@.len());
        assert("f7"@.len() != "right"@.len());
        assert("f7"@.len() != "left"@.len());
        assert("f7"@.len() != "backspace"@.len());
        assert("f7"@.len() != "backspace"@.len());
        assert("f7"@.len() != "escape"@.len());
        assert("f7"@.len() != "home"@.len());
        assert("f7"@.len() != "end"@.len());
        assert("f7"@.len() != "pageup"@.len());
        assert("f7"@.len() != "pagedown"@.len());
        assert("f7"@.len() != "delete"@.len());
        assert("f7"@[1] != "f1"@[1]);
        assert("f7"@[1] != "f2"@[1]);
        assert("f7"@[1] != "f3"@[1]);
        assert("f7"@[1] != "f4"@[1]);
        assert("f7"@[1] != "f5"@[1]);
        assert("f7"@[1] != "f6"@[1]);
        lemma_special_path("f7"@, m, app_cursor, macos);
    }
    assert(key_bytes_spec("f8"@, None, m, app_cursor, macos) == Some(seq![0x1bu8, 0x5bu8, 0x31u8, 0x39u8, 0x7eu8])) by {
        assert("f8"@.len() != "tab"@.len());
        assert("f8"@.len() != "enter"@.len());
        assert("f8"@.len() != "return"@.len());
        assert("f8"@.len() != "kp_enter"@.len());
        assert("f8"@[0] != "up"@[0]);
        assert("f8"@.len() != "down"@.len());
        assert("f8"@.len() != "right"@.len());
        assert("f8"@.len() != "left"@.len());
        assert("f8"@.len() != "backspace"@.len());
        assert("f8"@.len() != "backspace"@.len());
        assert("f8"@.len() != "escape"@.len());
        assert("f8"@.len() != "home"@.len());
        assert("f8"@.len() != "end"@.len());
        assert("f8"@.len() != "pageup"@.len());
        assert("f8"@.len() != "pagedown"@.len());
        assert("f8"@.len() != "delete"@.len());
        assert("f8"@[1] != "f1"@[1]);
        assert("f8"@[1] != "f2"@[1]);
        assert("f8"@[1] != "f3"@[1]);
        assert("f8"@[1] != "f4"@[1]);
        assert("f8"@[1] != "f5"@[1]);
        assert("f8"@[1] != "f6"@[1]);
        assert("f8"@[1] != "f7"@[1]);
        lemma_special_path("f8"@, m, app_cursor, macos);
    }
    assert(key_bytes_spec("f9"@, None, m, app_cursor, macos) == Some(seq![0x1bu8, 0x5bu8, 0x32u8, 0x30u8, 0x7eu8])) by {
        assert("f9"@.len() != "tab"@.len());
        assert("f9"@.len() != "enter"@.len());
        assert("f9"@.len() != "return"@.len());
        assert("f9"@.len() != "kp_enter"@.len());
        assert("f9"@[0] != "up"@[0]);
        assert("f9"@.len() != "down"@.len());
        assert("f9"@.len() != "right"@.len());
        assert("f9"@.len() != "left"@.len());
        assert("f9"@.len() != "backspace"@.len());
        assert("f9"@.len() != "backspace"@.len());
        assert("f9"@.len() != "escape"@.len());
        assert("f9"@.len() != "home"@.len());
        assert("f9"@.len() != "end"@.len());
        assert("f9"@.len() != "pageup"@.len());
        assert("f9"@.len() != "pagedown"@.len());
        assert("f9"@.len() != "delete"@.len());
        assert("f9"@[1] != "f1"@[1]);
        assert("f9"@[1] != "f2"@[1]);
        assert("f9"@[1] != "f3"@[1]);
        assert("f9"@[1] != "f4"@[1]);
        assert("f9"@[1] != "f5"@[1]);
        assert("f9"@[1] != "f6"@[1]);
        assert("f9"@[1] != "f7"@[1]);
        assert("f9"@[1] != "f8"@[1]);
        lemma_special_path("f9"@, m, app_cursor, macos);
    }
    assert(key_bytes_spec("f10"@, None, m, app_cursor, macos) == Some(seq![0x1bu8, 0x5bu8, 0x32u8, 0x31u8, 0x7eu8])) by {
        assert("f10"@[0] != "tab"@[0]);
        assert("f10"@.len() != "enter"@.len());
        assert("f10"@.len() != "return"@.len());
        assert("f10"@.len() != "kp_enter"@.len());
        assert("f10"@.len() != "up"@.len());
        assert("f10"@.len() != "down"@.len());
        assert("f10"@.len() != "right"@.len());
        assert("f10"@.len() != "left"@.len());
        assert("f10"@.len() != "backspace"@.len());
        assert("f10"@.len() != "backspace"@.len());
        assert("f10"@.len() != "escape"@.len());
        assert("f10"@.len() != "home"@.len());
        assert("f10"@[0] != "end"@[0]);
        assert("f10"@.len() != "pageup"@.len());
        assert("f10"@.len() != "pagedown"@.len());
        assert("f10"@.len() != "delete"@.len());
        assert("f10"@.len() != "f1"@.len());
        assert("f10"@.len() != "f2"@.len());
        assert("f10"@.len() != "f3"@.len());
        assert("f10"@.len() != "f4"@.len());
        assert("f10"@.len() != "f5"@.len());
        assert("f10"@.len() != "f6"@.len());
        assert("f10"@.len() != "f7"@.len());
        assert("f10"@.len() != "f8"@.len());
        assert("f10"@.len() != "f9"@.len());
        lemma_special_path("f10"@, m, app_cursor, macos);
    }
    assert(key_bytes_spec("f11"@, None, m, app_cursor, macos) == Some(seq![0x1bu8, 0x5bu8, 0x32u8, 0x33u8, 0x7eu8])) by {
        assert("f11"@[0] != "tab"@[0]);
        assert("f11"@.len() != "enter"@.len());
        assert("f11"@.len() != "return"@.len());
        assert("f11"@.len() != "kp_enter"@.len());
        assert("f11"@.len() != "up"@.len());
        assert("f11"@.len() != "down"@.len());
        assert("f11"@.len() != "right"@.len());
        assert("f11"@.len() != "left"@.len());
        assert("f11"@.len() != "backspace"@.len());
        assert("f11"@.len() != "backspace"@.len());
        assert("f11"@.len() != "escape"@.len());
        assert("f11"@.len() != "home"@.len());
        assert("f11"@[0] != "end"@[0]);
        assert("f11"@.len() != "pageup"@.len());
        assert("f11"@.len() != "pagedown"@.len());
        assert("f11"@.len() != "delete"@.len());
        assert("f11"@.len() != "f1"@.len());
        assert("f11"@.len() != "f2"@.len());
        assert("f11"@.len() != "f3"@.len());
        assert("f11"@.len() != "f4"@.len());
        assert("f11"@.len() != "f5"@.len());
        assert("f11"@.len() != "f6"@.len());
        assert("f11"@.len() != "f7"@.len());
        assert("f11"@.len() != "f8"@.len());
        assert("f11"@.len() != "f9"@.len());
        assert("f11"@[2] != "f10"@[2]);
        lemma_special_path("f11"@, m, app_cursor, macos);
    }
    assert(key_bytes_spec("f12"@, None, m, app_cursor, macos) == Some(seq![0x1bu8, 0x5bu8, 0x32u8, 0x34u8, 0x7eu8])) by {
        assert("f12"@[0] != "tab"@[0]);
        assert("f12"@.len() != "enter"@.len());
        assert("f12"@.len() != "return"@.len());
        assert("f12"@.len() != "kp_enter"@.len());
        assert("f12"@.len() != "up"@.len());
        assert("f12"@.len() != "down"@.len());
        assert("f12"@.len() != "right"@.len());
        assert("f12"@.len() != "left"@.len());
        assert("f12"@.len() != "backspace"@.len());
        assert("f12"@.len() != "backspace"@.len());
        assert("f12"@.len() != "escape"@.len());
        assert("f12"@.len() != "home"@.len());
        assert("f12"@[0] != "end"@[0]);
        assert("f12"@.len() != "pageup"@.len());
        assert("f12"@.len() != "pagedown"@.len());
        assert("f12"@.len() != "delete"@.len());
        assert("f12"@.len() != "f1"@.len());
        assert("f12"@.len() != "f2"@.len());
        assert("f12"@.len() != "f3"@.len());
        assert("f12"@.len() != "f4"@.len());
        assert("f12"@.len() != "f5"@.len());
        assert("f12"@.len() != "f6"@.len());
        assert("f12"@.len() != "f7"@.len());
        assert("f12"@.len() != "f8"@.len());
        assert("f12"@.len() != "f9"@.len());
        assert("f12"@[2] != "f10"@[2]);
        assert("f12"@[2] != "f11"@[2]);
        lemma_special_path("f12"@, m, app_cursor, macos);
    }
}

/// The keys every terminal knows, pressed with no modifier (or Shift where named): Tab
/// sends HT and Shift+Tab `ESC [ Z`; Enter sends CR and Shift+Enter LF; Backspace sends
/// DEL (0x7f); Escape sends ESC; Home and End send `ESC [ H` and `ESC [ F`; the arrows
/// send `ESC [ A`, `B`, `C`, `D` for Up, Down, Right, Left, or `ESC O` and the same
/// letter in application cursor mode. This holds on every platform.
pub proof fn law_plain_keys(app_cursor: bool, macos: bool)
    ensures
        ({
            let none = KeyModifiers { platform: false, shift: false, alt: false, ctrl: false };
            let shift = KeyModifiers { platform: false, shift: true, alt: false, ctrl: false };
            &&& key_bytes_spec("tab"@, None, none, app_cursor, macos) == Some(seq![0x09u8])
            &&& key_bytes_spec("tab"@, None, shift, app_cursor, macos) == Some(seq![0x1bu8, 0x5bu8, 0x5au8])
            &&& key_bytes_spec("enter"@, None, none, app_cursor, macos) == Some(seq![0x0du8])
            &&& key_bytes_spec("enter"@, None, shift, app_cursor, macos) == Some(seq![0x0au8])
            &&& key_bytes_spec("backspace"@, None, none, app_cursor, macos) == Some(seq![0x7fu8])
            &&& key_bytes_spec("escape"@, None, none, app_cursor, macos) == Some(seq![0x1bu8])
            &&& key_bytes_spec("home"@, None, none, app_cursor, macos) == Some(seq![0x1bu8, 0x5bu8, 0x48u8])
            &&& key_bytes_spec("end"@, None, none, app_cursor, macos) == Some(seq![0x1bu8, 0x5bu8, 0x46u8])
            &&& key_bytes_spec("up"@, None, none, app_cursor, macos) == Some(if app_cursor { seq![0x1bu8, 0x4fu8, 0x41u8] } else { seq![0x1bu8, 0x5bu8, 0x41u8] })
            &&& key_bytes_spec("down"@, None, none, app_cursor, macos) == Some(if app_cursor { seq![0x1bu8, 0x4fu8, 0x42u8] } else { seq![0x1bu8, 0x5bu8, 0x42u8] })
            &&& key_bytes_spec("right"@, None, none, app_cursor, macos) == Some(if app_cursor { seq![0x1bu8, 0x4fu8, 0x43u8] } else { seq![0x1bu8, 0x5bu8, 0x43u8] })
            &&& key_bytes_spec("left"@, None, none, app_cursor, macos) == Some(if app_cursor { seq![0x1bu8, 0x4fu8, 0x44u8] } else { seq![0x1bu8, 0x5bu8, 0x44u8] })
        }),
{
    let none = KeyModifiers { platform: false, shift: false, alt: false, ctrl: false };
    let shift = KeyModifiers { platform: false, shift: true, alt: false, ctrl: false };
    reveal_strlit("[");
    reveal_strlit("backspace");
    reveal_strlit("delete");
    reveal_strlit("down");
    reveal_strlit("end");
    reveal_strlit("enter");
    reveal_strlit("escape");
    reveal_strlit("home");
    reveal_strlit("kp_enter");
    reveal_strlit("left");
    reveal_strlit("pagedown");
    reveal_strlit("pageup");
    reveal_strlit("return");
    reveal_strlit("right");
    reveal_strlit("tab");
    reveal_strlit("up");
    assert(key_bytes_spec("tab"@, None, none, app_cursor, macos) == Some(seq![0x09u8])) by {
        assert("tab"@.len() != "["@.len());
        lemma_encode_len("tab"@);
    }
    assert(key_bytes_spec("tab"@, None, shift, app_cursor, macos) == Some(seq![0x1bu8, 0x5bu8, 0x5au8])) by {
        assert("tab"@.len() != "["@.len());
        lemma_encode_len("tab"@);
    }
    assert(key_bytes_spec("enter"@, None, none, app_cursor, macos) == Some(seq![0x0du8])) by {
        assert("enter"@.len() != "["@.len());
        assert("enter"@.len() != "tab"@.len());
        lemma_encode_len("enter"@);
    }
    assert(key_bytes_spec("enter"@, None, shift, app_cursor, macos) == Some(seq![0x0au8])) by {
        assert("enter"@.len() != "["@.len());
        assert("enter"@.len() != "tab"@.len());
        lemma_encode_len("enter"@);
    }
    assert(key_bytes_spec("backspace"@, None, none, app_cursor, macos) == Some(seq![0x7fu8])) by {
        assert("backspace"@.len() != "["@.len());
        assert("backspace"@.len() != "tab"@.len());
        assert("backspace"@.len() != "enter"@.len());
        assert("backspace"@.len() != "return"@.len());
        assert("backspace"@.len() != "kp_enter"@.len());
        assert("backspace"@.len() != "up"@.len());
        assert("backspace"@.len() != "down"@.len());
        assert("backspace"@.len() != "right"@.len());
        assert("backspace"@.len() != "left"@.len());
        lemma_encode_len("backspace"@);
    }
    assert(key_bytes_spec("escape"@, None, none, app_cursor, macos) == Some(seq![0x1bu8])) by {
        assert("escape"@.len() != "["@.len());
        assert("escape"@.len() != "tab"@.len());
        assert("escape"@.len() != "enter"@.len());
        assert("escape"@[0] != "return"@[0]);
        assert("escape"@.len() != "kp_enter"@.len());
        assert("escape"@.len() != "up"@.len());
        assert("escape"@.len() != "down"@.len());
        assert("escape"@.len() != "right"@.len());
        assert("escape"@.len() != "left"@.len());
        assert("escape"@.len() != "backspace"@.len());
        lemma_encode_len("escape"@);
    }
    assert(key_bytes_spec("home"@, None, none, app_cursor, macos) == Some(seq![0x1bu8, 0x5bu8, 0x48u8])) by {
        assert("home"@.len() != "["@.len());
        assert("home"@.len() != "tab"@.len());
        assert("home"@.len() != "enter"@.len());
        assert("home"@.len() != "return"@.len());
        assert("home"@.len() != "kp_enter"@.len());
        assert("home"@.len() != "up"@.len());
        assert("home"@[0] != "down"@[0]);
        assert("home"@.len() != "right"@.len());
        assert("home"@[0] != "left"@[0]);
        assert("home"@.len() != "backspace"@.len());
        assert("home"@.len() != "escape"@.len());
        lemma_encode_len("home"@);
    }
    assert(key_bytes_spec("end"@, None, none, app_cursor, macos) == Some(seq![0x1bu8, 0x5bu8, 0x46u8])) by {
        assert("end"@.len() != "["@.len());
        assert("end"@[0] != "tab"@[0]);
        assert("end"@.len() != "enter"@.len());
        assert("end"@.len() != "return"@.len());
        assert("end"@.len() != "kp_enter"@.len());
        assert("end"@.len() != "up"@.len());
        assert("end"@.len() != "down"@.len());
        assert("end"@.len() != "right"@.len());
        assert("end"@.len() != "left"@.len());
        assert("end"@.len() != "backspace"@.len());
        assert("end"@.len() != "escape"@.len());
        assert("end"@.len() != "home"@.len());
        lemma_encode_len("end"@);
    }
    assert(key_bytes_spec("up"@, None, none, app_cursor, macos) == Some(if app_cursor { seq![0x1bu8, 0x4fu8, 0x41u8] } else { seq![0x1bu8, 0x5bu8, 0x41u8] })) by {
        assert("up"@.len() != "["@.len());
        assert("up"@.len() != "tab"@.len());
        assert("up"@.len() != "enter"@.len());
        assert("up"@.len() != "return"@.len());
        assert("up"@.len() != "kp_enter"@.len());
        lemma_encode_len("up"@);
    }
    assert(key_bytes_spec("down"@, None, none, app_cursor, macos) == Some(if app_cursor { seq![0x1bu8, 0x4fu8, 0x42u8] } else { seq![0x1bu8, 0x5bu8, 0x42u8] })) by {
        assert("down"@.len() != "["@.len());
        assert("down"@.len() != "tab"@.len());
        assert("down"@.len() != "enter"@.len());
        assert("down"@.len() != "return"@.len());
        assert("down"@.len() != "kp_enter"@.len());
        assert("down"@.len() != "up"@.len());
        lemma_encode_len("down"@);
    }
    assert(key_bytes_spec("right"@, None, none, app_cursor, macos) == Some(if app_cursor { seq![0x1bu8, 0x4fu8, 0x43u8] } else { seq![0x1bu8, 0x5bu8, 0x43u8] })) by {
        assert("right"@.len() != "["@.len());
        assert("right"@.len() != "tab"@.len());
        assert("right"@[0] != "enter"@[0]);
        assert("right"@.len() != "return"@.len());
        assert("right"@.len() != "kp_enter"@.len());
        assert("right"@.len() != "up"@.len());
        assert("right"@.len() != "down"@.len());
        lemma_encode_len("right"@);
    }
    assert(key_bytes_spec("left"@, None, none, app_cursor, macos) == Some(if app_cursor { seq![0x1bu8, 0x4fu8, 0x44u8] } else { seq![0x1bu8, 0x5bu8, 0x44u8] })) by {
        assert("left"@.len() != "["@.len());
        assert("left"@.len() != "tab"@.len());
        assert("left"@.len() != "enter"@.len());
        assert("left"@.len() != "return"@.len());
        assert("left"@.len() != "kp_enter"@.len());
        assert("left"@.len() != "up"@.len());
        assert("left"@[0] != "down"@[0]);
        assert("left"@.len() != "right"@.len());
        lemma_encode_len("left"@);
    }
}

} // verus!
