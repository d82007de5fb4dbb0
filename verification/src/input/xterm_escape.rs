//! Conversion of key names and modifiers to the xterm byte sequences written to a PTY.
use vstd::prelude::*;
use vstd::utf8::*;
use crate::text::str_equal;

verus! {

/// Modifier keys of a key event.
#[derive(Clone, Copy, Debug, Default)]
pub struct KeyModifiers {
    /// Cmd on macOS, Win on Windows.
    pub platform: bool,
    pub shift: bool,
    pub alt: bool,
    pub ctrl: bool,
}

/// xterm modifier parameter: 1 + shift + 2·alt + 4·ctrl.
pub open spec fn modifier_param_spec(m: KeyModifiers) -> u8 {
    (1 + (if m.shift { 1u8 } else { 0u8 }) + (if m.alt { 2u8 } else { 0u8 }) + (if m.ctrl { 4u8 } else { 0u8 })) as u8
}

/// `ESC [ last`, or `ESC [ 1 ; p last` when modifiers are held.
pub open spec fn csi_spec(m: KeyModifiers, last: u8) -> Seq<u8> {
    let p = modifier_param_spec(m);
    if p == 1 { seq![0x1bu8, 0x5bu8, last] } else { seq![0x1bu8, 0x5bu8, 0x31u8, 0x3bu8, (0x30 + p) as u8, last] }
}

/// Bytes for a key name that is not a named key: Ctrl+letter or Ctrl+`@[\]^_` give a
/// control byte, Alt+char gives ESC then the char, anything else its UTF-8 bytes.
pub open spec fn other_key_bytes(key: Seq<char>, m: KeyModifiers) -> Seq<u8> {
    let b = encode_utf8(key);
    if m.ctrl && b.len() == 1 && 0x40 <= b[0] && b[0] <= 0x5f {
        seq![(b[0] - 0x40) as u8]
    } else if m.ctrl && b.len() == 1 && 0x61 <= b[0] && b[0] <= 0x7a {
        seq![(b[0] - 0x60) as u8]
    } else if m.alt && b.len() == 1 {
        seq![0x1bu8, b[0]]
    } else {
        b
    }
}

/// Bytes for a named key with no modifier dependence, if `key` is one.
pub open spec fn fixed_key_bytes(key: Seq<char>) -> Option<Seq<u8>> {
    if key == "enter"@ || key == "return"@ { Some(seq![0x0du8]) }
    else if key == "backspace"@ { Some(seq![0x7fu8]) }
    else if key == "escape"@ { Some(seq![0x1bu8]) }
    else if key == "space"@ || key == "Space"@ { Some(seq![0x20u8]) }
    else if key == "pageup"@ || key == "page_up"@ { Some(seq![0x1bu8, 0x5bu8, 0x35u8, 0x7eu8]) }
    else if key == "pagedown"@ || key == "page_down"@ { Some(seq![0x1bu8, 0x5bu8, 0x36u8, 0x7eu8]) }
    else if key == "delete"@ { Some(seq![0x1bu8, 0x5bu8, 0x33u8, 0x7eu8]) }
    else if key == "insert"@ { Some(seq![0x1bu8, 0x5bu8, 0x32u8, 0x7eu8]) }
    else if key == "f1"@ { Some(seq![0x1bu8, 0x4fu8, 0x50u8]) }
    else if key == "f2"@ { Some(seq![0x1bu8, 0x4fu8, 0x51u8]) }
    else if key == "f3"@ { Some(seq![0x1bu8, 0x4fu8, 0x52u8]) }
    else if key == "f4"@ { Some(seq![0x1bu8, 0x4fu8, 0x53u8]) }
    else if key == "f5"@ { Some(seq![0x1bu8, 0x5bu8, 0x31u8, 0x35u8, 0x7eu8]) }
    else if key == "f6"@ { Some(seq![0x1bu8, 0x5bu8, 0x31u8, 0x37u8, 0x7eu8]) }
    else if key == "f7"@ { Some(seq![0x1bu8, 0x5bu8, 0x31u8, 0x38u8, 0x7eu8]) }
    else if key == "f8"@ { Some(seq![0x1bu8, 0x5bu8, 0x31u8, 0x39u8, 0x7eu8]) }
    else if key == "f9"@ { Some(seq![0x1bu8, 0x5bu8, 0x32u8, 0x30u8, 0x7eu8]) }
    else if key == "f10"@ { Some(seq![0x1bu8, 0x5bu8, 0x32u8, 0x31u8, 0x7eu8]) }
    else if key == "f11"@ { Some(seq![0x1bu8, 0x5bu8, 0x32u8, 0x33u8, 0x7eu8]) }
    else if key == "f12"@ { Some(seq![0x1bu8, 0x5bu8, 0x32u8, 0x34u8, 0x7eu8]) }
    else { None }
}

/// The final byte of the CSI sequence of an arrow, Home or End key.
pub open spec fn csi_key_final(key: Seq<char>) -> Option<u8> {
    if key == "up"@ { Some(0x41u8) }
    else if key == "down"@ { Some(0x42u8) }
    else if key == "right"@ { Some(0x43u8) }
    else if key == "left"@ { Some(0x44u8) }
    else if key == "home"@ { Some(0x48u8) }
    else if key == "end"@ { Some(0x46u8) }
    else { None }
}

/// Bytes for a key event; `None` when the platform modifier (Cmd) is held, since such
/// keys are application shortcuts.
pub open spec fn xterm_bytes(key: Seq<char>, m: KeyModifiers) -> Option<Seq<u8>> {
    if m.platform {
        None
    } else if key == "tab"@ {
        Some(if m.shift { seq![0x1bu8, 0x5bu8, 0x5au8] } else { seq![0x09u8] })
    } else {
        match csi_key_final(key) {
            Some(f) => Some(csi_spec(m, f)),
            None => match fixed_key_bytes(key) {
                Some(b) => Some(b),
                None => Some(other_key_bytes(key, m)),
            },
        }
    }
}

/// xterm modifier parameter of `m`.
pub fn modifier_param(m: KeyModifiers) -> (r: u8)
    ensures
        r == modifier_param_spec(m),
        1 <= r <= 8,
{
    match (m.shift, m.alt, m.ctrl) {
        (false, false, false) => 1,
        (true, false, false) => 2,
        (false, true, false) => 3,
        (true, true, false) => 4,
        (false, false, true) => 5,
        (true, false, true) => 6,
        (false, true, true) => 7,
        (true, true, true) => 8,
    }
}

/// CSI sequence for an arrow key.
pub fn escape_csi(modifiers: KeyModifiers, last: u8) -> (r: Vec<u8>)
    ensures
        r@ == csi_spec(modifiers, last),
{
    let param = modifier_param(modifiers);
    if param == 1 {
        vec![0x1b, 0x5b, last]
    } else {
        vec![0x1b, 0x5b, 0x31, 0x3b, 0x30 + param, last]
    }
}

/// CSI sequence for Home and End (same form as [`escape_csi`]).
pub fn escape_csi_special(modifiers: KeyModifiers, last: u8) -> (r: Vec<u8>)
    ensures
        r@ == csi_spec(modifiers, last),
{
    escape_csi(modifiers, last)
}

pub(crate) fn bytes_of(b: &[u8]) -> (r: Vec<u8>)
    ensures
        r@ == b@,
{
    let mut out: Vec<u8> = Vec::new();
    let mut i: usize = 0;
    while i < b.len()
        invariant
            i <= b@.len(),
            out@ == b@.take(i as int),
        decreases b@.len() - i,
    {
        out.push(b[i]);
        proof { assert(out@ =~= b@.take(i + 1)); }
        i = i + 1;
    }
    proof { assert(b@.take(b@.len() as int) =~= b@); }
    out
}

/// Named key that needs no modifiers.
fn fixed_key(key: &str) -> (r: Option<Vec<u8>>)
    ensures
        match r { Some(v) => fixed_key_bytes(key@) == Some(v@), None => fixed_key_bytes(key@) is None },
{
    if str_equal(key, "enter") || str_equal(key, "return") { Some(vec![0x0d]) }
    else if str_equal(key, "backspace") { Some(vec![0x7f]) }
    else if str_equal(key, "escape") { Some(vec![0x1b]) }
    else if str_equal(key, "space") || str_equal(key, "Space") { Some(vec![0x20]) }
    else if str_equal(key, "pageup") || str_equal(key, "page_up") { Some(vec![0x1b, 0x5b, 0x35, 0x7e]) }
    else if str_equal(key, "pagedown") || str_equal(key, "page_down") { Some(vec![0x1b, 0x5b, 0x36, 0x7e]) }
    else if str_equal(key, "delete") { Some(vec![0x1b, 0x5b, 0x33, 0x7e]) }
    else if str_equal(key, "insert") { Some(vec![0x1b, 0x5b, 0x32, 0x7e]) }
    else if str_equal(key, "f1") { Some(vec![0x1b, 0x4f, 0x50]) }
    else if str_equal(key, "f2") { Some(vec![0x1b, 0x4f, 0x51]) }
    else if str_equal(key, "f3") { Some(vec![0x1b, 0x4f, 0x52]) }
    else if str_equal(key, "f4") { Some(vec![0x1b, 0x4f, 0x53]) }
    else if str_equal(key, "f5") { Some(vec![0x1b, 0x5b, 0x31, 0x35, 0x7e]) }
    else if str_equal(key, "f6") { Some(vec![0x1b, 0x5b, 0x31, 0x37, 0x7e]) }
    else if str_equal(key, "f7") { Some(vec![0x1b, 0x5b, 0x31, 0x38, 0x7e]) }
    else if str_equal(key, "f8") { Some(vec![0x1b, 0x5b, 0x31, 0x39, 0x7e]) }
    else if str_equal(key, "f9") { Some(vec![0x1b, 0x5b, 0x32, 0x30, 0x7e]) }
    else if str_equal(key, "f10") { Some(vec![0x1b, 0x5b, 0x32, 0x31, 0x7e]) }
    else if str_equal(key, "f11") { Some(vec![0x1b, 0x5b, 0x32, 0x33, 0x7e]) }
    else if str_equal(key, "f12") { Some(vec![0x1b, 0x5b, 0x32, 0x34, 0x7e]) }
    else { None }
}

/// Final byte of an arrow, Home or End key.
fn csi_key(key: &str) -> (r: Option<u8>)
    ensures
        r == csi_key_final(key@),
{
    if str_equal(key, "up") { Some(0x41) }
    else if str_equal(key, "down") { Some(0x42) }
    else if str_equal(key, "right") { Some(0x43) }
    else if str_equal(key, "left") { Some(0x44) }
    else if str_equal(key, "home") { Some(0x48) }
    else if str_equal(key, "end") { Some(0x46) }
    else { None }
}

/// Converts a key name and modifiers to the bytes to write to the terminal; `None`
/// when Cmd is held (the key is an application shortcut).
pub fn key_to_xterm_escape(key: &str, modifiers: KeyModifiers) -> (r: Option<Vec<u8>>)
    ensures
        match r { Some(v) => xterm_bytes(key@, modifiers) == Some(v@), None => xterm_bytes(key@, modifiers) is None },
{
    if modifiers.platform {
        return None;
    }
    if str_equal(key, "tab") {
        return Some(if modifiers.shift { vec![0x1b, 0x5b, 0x5a] } else { vec![0x09] });
    }
    match csi_key(key) {
        Some(f) => {
            let is_he = str_equal(key, "home") || str_equal(key, "end");
            return Some(if is_he { escape_csi_special(modifiers, f) } else { escape_csi(modifiers, f) });
        },
        None => {},
    }
    match fixed_key(key) {
        Some(v) => { return Some(v); },
        None => {},
    }
    let b = key.as_bytes();
    if modifiers.ctrl && b.len() == 1 {
        let c = b[0];
        if 0x40 <= c && c <= 0x5f {
            return Some(vec![c - 0x40]);
        }
        if 0x61 <= c && c <= 0x7a {
            return Some(vec![c - 0x60]);
        }
    }
    if modifiers.alt && b.len() == 1 {
        return Some(vec![0x1b, b[0]]);
    }
    Some(bytes_of(b))
}

/// Cmd-modified keys are never sent to the terminal, whatever the key.
pub proof fn law_platform_keys_intercepted(key: Seq<char>, m: KeyModifiers)
    requires
        m.platform,
    ensures
        xterm_bytes(key, m) is None,
{
}

/// Without Cmd, every key produces some bytes, and a single ASCII letter typed with
/// Ctrl produces exactly one control byte below 0x20.
pub proof fn law_ctrl_letter(key: Seq<char>, m: KeyModifiers)
    requires
        !m.platform,
        m.ctrl,
        encode_utf8(key).len() == 1,
        0x61 <= encode_utf8(key)[0] <= 0x7a,
        key != "tab"@,
        csi_key_final(key) is None,
        fixed_key_bytes(key) is None,
    ensures
        xterm_bytes(key, m) == Some(seq![(encode_utf8(key)[0] - 0x60) as u8]),
        (encode_utf8(key)[0] - 0x60) < 0x20,
{
}

} // verus!
