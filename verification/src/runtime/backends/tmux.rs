//! tmux key handling shared by the tmux backends.
use vstd::prelude::*;
use crate::text::{chars_of, str_equal, string_from_chars, extend_str, extend_chars, encode_chars, trim, trim_chars, parse_u16_spec, parse_u16_chars, slice_chars, string_of, contains_sub, contains_chars};
use crate::runtime::agent_runtime::RuntimeError;
use crate::status_detector::{lines_of, split_lines, lines_view};
use crate::remotes::gateway::{words, words_of, texts};

verus! {

/// Escapes `\` as `\\` and `'` as `\'`.
pub open spec fn escape_tmux_spec(s: Seq<char>) -> Seq<char>
    decreases s.len(),
{
    if s.len() == 0 {
        Seq::empty()
    } else {
        let last = s.last();
        escape_tmux_spec(s.drop_last()) + if last == '\\' {
            seq!['\\', '\\']
        } else if last == '\'' {
            seq!['\\', '\'']
        } else {
            seq![last]
        }
    }
}

/// Escapes a string for a single-quoted `tmux send-keys` argument: backslashes are
/// doubled first, then quotes are backslash-escaped.
pub fn escape_for_tmux_send_keys(s: &str) -> (r: String)
    ensures
        r@ == escape_tmux_spec(s@),
{
    let v = chars_of(s);
    let mut out: Vec<char> = Vec::new();
    let mut i: usize = 0;
    while i < v.len()
        invariant
            i <= v.len(),
            out@ == escape_tmux_spec(v@.take(i as int)),
        decreases v.len() - i,
    {
        let c = v[i];
        proof { assert(v@.take(i + 1).drop_last() =~= v@.take(i as int)); }
        if c == '\\' {
            out.push('\\');
            out.push('\\');
        } else if c == '\'' {
            out.push('\\');
            out.push('\'');
        } else {
            out.push(c);
        }
        proof { assert(out@ =~= escape_tmux_spec(v@.take(i + 1))); }
        i = i + 1;
    }
    proof { assert(v@.take(v@.len() as int) =~= v@); }
    string_from_chars(&out)
}

/// xterm bytes for a tmux key name, if it is a known one.
pub open spec fn tmux_key_bytes_spec(key: Seq<char>) -> Option<Seq<u8>> {
    if key == "Enter"@ || key == "Return"@ { Some(seq![0x0du8, 0x0au8]) }
    else if key == "Tab"@ { Some(seq![0x09u8]) }
    else if key == "Space"@ { Some(seq![0x20u8]) }
    else if key == "BackSpace"@ || key == "BS"@ { Some(seq![0x7fu8]) }
    else if key == "Escape"@ { Some(seq![0x1bu8]) }
    else if key == "Up"@ { Some(seq![0x1bu8, 0x5bu8, 0x41u8]) }
    else if key == "Down"@ { Some(seq![0x1bu8, 0x5bu8, 0x42u8]) }
    else if key == "Right"@ { Some(seq![0x1bu8, 0x5bu8, 0x43u8]) }
    else if key == "Left"@ { Some(seq![0x1bu8, 0x5bu8, 0x44u8]) }
    else if key == "Home"@ { Some(seq![0x1bu8, 0x5bu8, 0x48u8]) }
    else if key == "End"@ { Some(seq![0x1bu8, 0x5bu8, 0x46u8]) }
    else if key == "PageDown"@ || key == "Page_Down"@ { Some(seq![0x1bu8, 0x5bu8, 0x36u8, 0x7eu8]) }
    else if key == "PageUp"@ || key == "Page_Up"@ { Some(seq![0x1bu8, 0x5bu8, 0x35u8, 0x7eu8]) }
    else if key == "Delete"@ { Some(seq![0x1bu8, 0x5bu8, 0x33u8, 0x7eu8]) }
    else if key == "Insert"@ { Some(seq![0x1bu8, 0x5bu8, 0x32u8, 0x7eu8]) }
    else if key == "F1"@ { Some(seq![0x1bu8, 0x4fu8, 0x50u8]) }
    else if key == "F2"@ { Some(seq![0x1bu8, 0x4fu8, 0x51u8]) }
    else if key == "F3"@ { Some(seq![0x1bu8, 0x4fu8, 0x52u8]) }
    else if key == "F4"@ { Some(seq![0x1bu8, 0x4fu8, 0x53u8]) }
    else if key == "F5"@ { Some(seq![0x1bu8, 0x5bu8, 0x31u8, 0x35u8, 0x7eu8]) }
    else if key == "F6"@ { Some(seq![0x1bu8, 0x5bu8, 0x31u8, 0x37u8, 0x7eu8]) }
    else if key == "F7"@ { Some(seq![0x1bu8, 0x5bu8, 0x31u8, 0x38u8, 0x7eu8]) }
    else if key == "F8"@ { Some(seq![0x1bu8, 0x5bu8, 0x31u8, 0x39u8, 0x7eu8]) }
    else if key == "F9"@ { Some(seq![0x1bu8, 0x5bu8, 0x32u8, 0x30u8, 0x7eu8]) }
    else if key == "F10"@ { Some(seq![0x1bu8, 0x5bu8, 0x32u8, 0x31u8, 0x7eu8]) }
    else if key == "F11"@ { Some(seq![0x1bu8, 0x5bu8, 0x32u8, 0x33u8, 0x7eu8]) }
    else if key == "F12"@ { Some(seq![0x1bu8, 0x5bu8, 0x32u8, 0x34u8, 0x7eu8]) }
    else { None }
}

/// Maps a tmux key name to the xterm bytes for a direct PTY write; `None` for unknown
/// names.
pub fn tmux_key_to_bytes(key: &str) -> (r: Option<Vec<u8>>)
    ensures
        match r { Some(v) => tmux_key_bytes_spec(key@) == Some(v@), None => tmux_key_bytes_spec(key@) is None },
{
    if str_equal(key, "Enter") || str_equal(key, "Return") { Some(vec![0x0d, 0x0a]) }
    else if str_equal(key, "Tab") { Some(vec![0x09]) }
    else if str_equal(key, "Space") { Some(vec![0x20]) }
    else if str_equal(key, "BackSpace") || str_equal(key, "BS") { Some(vec![0x7f]) }
    else if str_equal(key, "Escape") { Some(vec![0x1b]) }
    else if str_equal(key, "Up") { Some(vec![0x1b, 0x5b, 0x41]) }
    else if str_equal(key, "Down") { Some(vec![0x1b, 0x5b, 0x42]) }
    else if str_equal(key, "Right") { Some(vec![0x1b, 0x5b, 0x43]) }
    else if str_equal(key, "Left") { Some(vec![0x1b, 0x5b, 0x44]) }
    else if str_equal(key, "Home") { Some(vec![0x1b, 0x5b, 0x48]) }
    else if str_equal(key, "End") { Some(vec![0x1b, 0x5b, 0x46]) }
    else if str_equal(key, "PageDown") || str_equal(key, "Page_Down") { Some(vec![0x1b, 0x5b, 0x36, 0x7e]) }
    else if str_equal(key, "PageUp") || str_equal(key, "Page_Up") { Some(vec![0x1b, 0x5b, 0x35, 0x7e]) }
    else if str_equal(key, "Delete") { Some(vec![0x1b, 0x5b, 0x33, 0x7e]) }
    else if str_equal(key, "Insert") { Some(vec![0x1b, 0x5b, 0x32, 0x7e]) }
    else if str_equal(key, "F1") { Some(vec![0x1b, 0x4f, 0x50]) }
    else if str_equal(key, "F2") { Some(vec![0x1b, 0x4f, 0x51]) }
    else if str_equal(key, "F3") { Some(vec![0x1b, 0x4f, 0x52]) }
    else if str_equal(key, "F4") { Some(vec![0x1b, 0x4f, 0x53]) }
    else if str_equal(key, "F5") { Some(vec![0x1b, 0x5b, 0x31, 0x35, 0x7e]) }
    else if str_equal(key, "F6") { Some(vec![0x1b, 0x5b, 0x31, 0x37, 0x7e]) }
    else if str_equal(key, "F7") { Some(vec![0x1b, 0x5b, 0x31, 0x38, 0x7e]) }
    else if str_equal(key, "F8") { Some(vec![0x1b, 0x5b, 0x31, 0x39, 0x7e]) }
    else if str_equal(key, "F9") { Some(vec![0x1b, 0x5b, 0x32, 0x30, 0x7e]) }
    else if str_equal(key, "F10") { Some(vec![0x1b, 0x5b, 0x32, 0x31, 0x7e]) }
    else if str_equal(key, "F11") { Some(vec![0x1b, 0x5b, 0x32, 0x33, 0x7e]) }
    else if str_equal(key, "F12") { Some(vec![0x1b, 0x5b, 0x32, 0x34, 0x7e]) }
    else { None }
}


/// Whether typed bytes are just Enter: `\r`, `\n` or `\r\n`.
pub open spec fn is_enter_spec(b: Seq<u8>) -> bool {
    b == seq![13u8] || b == seq![10u8] || b == seq![13u8, 10u8]
}

/// Whether typed bytes are just Enter (sent as a key so that tmux records the output).
pub fn is_enter_input(bytes: &[u8]) -> (r: bool)
    ensures
        r == is_enter_spec(bytes@),
{
    if bytes.len() == 1 {
        assert(bytes@ =~= seq![bytes@[0]]);
        bytes[0] == 13 || bytes[0] == 10
    } else if bytes.len() == 2 {
        assert(bytes@ =~= seq![bytes@[0], bytes@[1]]);
        bytes[0] == 13 && bytes[1] == 10
    } else {
        false
    }
}

/// The bytes sent for a key: the key text itself when literal; otherwise the xterm
/// sequence of a known tmux key name, else the key text.
pub open spec fn key_input_spec(key: Seq<char>, use_literal: bool) -> Seq<u8> {
    if use_literal {
        vstd::utf8::encode_utf8(key)
    } else {
        match tmux_key_bytes_spec(key) { Some(b) => b, None => vstd::utf8::encode_utf8(key) }
    }
}

/// The bytes sent for a key.
pub fn key_input_bytes(key: &str, use_literal: bool) -> (r: Vec<u8>)
    ensures
        r@ == key_input_spec(key@, use_literal),
{
    let literal = encode_chars(&chars_of(key));
    if use_literal {
        return literal;
    }
    match tmux_key_to_bytes(key) {
        Some(b) => b,
        None => literal,
    }
}

/// A byte that shows nothing: line feed, carriage return, space or tab.
pub open spec fn is_blank_byte(b: u8) -> bool {
    b == 10 || b == 13 || b == 32 || b == 9
}

/// How many line feeds there are among the blank bytes that start `s`.
pub open spec fn leading_newlines(s: Seq<u8>) -> nat
    decreases s.len(),
{
    if s.len() == 0 || !is_blank_byte(s[0]) { 0 } else { (if s[0] == 10 { 1nat } else { 0nat }) + leading_newlines(s.skip(1)) }
}

/// `s` without the line feeds and carriage returns at its end.
pub open spec fn trim_trailing_newlines(s: Seq<u8>) -> Seq<u8>
    decreases s.len(),
{
    if s.len() > 0 && (s.last() == 10 || s.last() == 13) { trim_trailing_newlines(s.drop_last()) } else { s }
}

/// `s` with each line feed preceded by a carriage return.
pub open spec fn to_crlf(s: Seq<u8>) -> Seq<u8>
    decreases s.len(),
{
    if s.len() == 0 { Seq::empty() } else { to_crlf(s.drop_last()) + if s.last() == 10 { seq![13u8, 10u8] } else { seq![s.last()] } }
}

/// What is shown of a pane's captured content when its output starts streaming: nothing
/// when it is blank, starts with three or more blank lines, or is longer than 400 bytes;
/// else the content without its final line breaks, with `\r\n` line breaks.
pub open spec fn initial_content_spec(s: Seq<u8>) -> Option<Seq<u8>> {
    let has_real = exists|i: int| 0 <= i < s.len() && !is_blank_byte(#[trigger] s[i]);
    if !has_real || leading_newlines(s) >= 3 || s.len() > 400 {
        None
    } else {
        Some(to_crlf(trim_trailing_newlines(s)))
    }
}

/// What is shown of a pane's captured content when its output starts streaming.
pub fn prepare_initial_content(initial: &Vec<u8>) -> (r: Option<Vec<u8>>)
    ensures
        match r { Some(v) => initial_content_spec(initial@) == Some(v@), None => initial_content_spec(initial@) is None },
{
    let ghost s = initial@;
    let mut has_real = false;
    let mut i: usize = 0;
    while i < initial.len()
        invariant
            i <= initial.len(),
            s == initial@,
            has_real == (exists|j: int| 0 <= j < i && !is_blank_byte(#[trigger] s[j])),
        decreases initial.len() - i,
    {
        let b = initial[i];
        if !(b == 10 || b == 13 || b == 32 || b == 9) {
            has_real = true;
        }
        i = i + 1;
    }
    let mut lead: usize = 0;
    let mut k: usize = 0;
    assert(s.skip(0) =~= s);
    while k < initial.len() && (initial[k] == 10 || initial[k] == 13 || initial[k] == 32 || initial[k] == 9)
        invariant
            k <= initial.len(),
            s == initial@,
            lead <= k,
            leading_newlines(s) == lead + leading_newlines(s.skip(k as int)),
        decreases initial.len() - k,
    {
        proof { assert(s.skip(k as int).skip(1) =~= s.skip(k + 1)); }
        if initial[k] == 10 {
            lead = lead + 1;
        }
        k = k + 1;
    }
    proof {
        if k < s.len() {
            assert(!is_blank_byte(s.skip(k as int)[0]));
        } else {
            assert(s.skip(k as int).len() == 0);
        }
    }
    if !has_real || lead >= 3 || initial.len() > 400 {
        return None;
    }
    let mut end: usize = initial.len();
    assert(s.take(end as int) =~= s);
    while end > 0 && (initial[end - 1] == 10 || initial[end - 1] == 13)
        invariant
            end <= initial.len(),
            s == initial@,
            trim_trailing_newlines(s) == trim_trailing_newlines(s.take(end as int)),
        decreases end,
    {
        proof { assert(s.take(end as int).drop_last() =~= s.take(end - 1)); }
        end = end - 1;
    }
    proof { assert(s.take(end as int) =~= trim_trailing_newlines(s)); }
    let mut out: Vec<u8> = Vec::new();
    let mut j: usize = 0;
    while j < end
        invariant
            j <= end <= initial.len(),
            s == initial@,
            out@ == to_crlf(s.take(j as int)),
        decreases end - j,
    {
        proof { assert(s.take(j + 1).drop_last() =~= s.take(j as int)); }
        if initial[j] == 10 {
            out.push(13);
            out.push(10);
        } else {
            out.push(initial[j]);
        }
        proof { assert(out@ =~= to_crlf(s.take(j + 1))); }
        j = j + 1;
    }
    Some(out)
}

/// The pane size reported by tmux (`width height`), or 80 by 24 when it cannot be read.
pub open spec fn dimensions_spec(out: Seq<char>) -> (u16, u16) {
    let w = words(out);
    if w.len() >= 2 && parse_u16_spec(w[0]) is Some && parse_u16_spec(w[1]) is Some {
        (parse_u16_spec(w[0])->0, parse_u16_spec(w[1])->0)
    } else {
        (80, 24)
    }
}

/// The pane size reported by tmux.
pub fn parse_pane_dimensions(out: &str) -> (r: (u16, u16))
    ensures
        r == dimensions_spec(out@),
{
    let w = words_of(&chars_of(out));
    if w.len() >= 2 {
        let c = parse_u16_chars(&w[0]);
        let r = parse_u16_chars(&w[1]);
        match (c, r) {
            (Some(c), Some(r)) => return (c, r),
            _ => {},
        }
    }
    (80, 24)
}

/// The trimmed non-empty lines of `ls`, in order.
pub open spec fn nonempty_trimmed(ls: Seq<Seq<char>>) -> Seq<Seq<char>>
    decreases ls.len(),
{
    if ls.len() == 0 { Seq::empty() } else {
        let r = nonempty_trimmed(ls.drop_last());
        if trim(ls.last()).len() > 0 { r.push(trim(ls.last())) } else { r }
    }
}

/// Texts of strings.
pub open spec fn string_texts(v: Seq<String>) -> Seq<Seq<char>> {
    v.map_values(|x: String| x@)
}

/// The pane ids listed by tmux, one per line.
pub fn parse_pane_ids(out: &str) -> (r: Vec<String>)
    ensures
        string_texts(r@) == nonempty_trimmed(lines_of(out@)),
{
    let ls = split_lines(&chars_of(out));
    let ghost lv = lines_view(ls@);
    let mut res: Vec<String> = Vec::new();
    let mut i: usize = 0;
    while i < ls.len()
        invariant
            i <= ls.len(),
            lv == lines_view(ls@),
            string_texts(res@) == nonempty_trimmed(lv.take(i as int)),
        decreases ls.len() - i,
    {
        proof { assert(lv.take(i + 1).drop_last() =~= lv.take(i as int)); }
        let t = trim_chars(&ls[i]);
        if t.len() > 0 {
            let ghost before = string_texts(res@);
            res.push(string_from_chars(&t));
            proof { assert(string_texts(res@) =~= before.push(t@)); }
        }
        i = i + 1;
    }
    proof { assert(lv.take(lv.len() as int) =~= lv); }
    res
}

/// The review window of a branch: `review-` and the branch with `/` and spaces made `-`.
pub open spec fn review_window_spec(branch: Seq<char>) -> Seq<char> {
    "review-"@ + branch.map_values(|c: char| if c == '/' || c == ' ' { '-' } else { c })
}

/// The review window of a branch.
pub fn review_window_name(branch: &str) -> (r: String)
    ensures
        r@ == review_window_spec(branch@),
{
    let b = chars_of(branch);
    let mut v: Vec<char> = Vec::new();
    extend_str(&mut v, "review-");
    let ghost v0 = v@;
    let mut i: usize = 0;
    while i < b.len()
        invariant
            i <= b.len(),
            v@ == v0 + b@.take(i as int).map_values(|c: char| if c == '/' || c == ' ' { '-' } else { c }),
        decreases b.len() - i,
    {
        v.push(if b[i] == '/' || b[i] == ' ' { '-' } else { b[i] });
        proof { assert(v@ =~= v0 + b@.take(i + 1).map_values(|c: char| if c == '/' || c == ' ' { '-' } else { c })); }
        i = i + 1;
    }
    proof { assert(b@.take(b@.len() as int) =~= b@); }
    string_from_chars(&v)
}

/// The tmux target of a pane: `session:window.pane`.
pub fn pane_target(session: &str, window: &str, pane_id: &str) -> (r: String)
    ensures
        r@ == session@ + ":"@ + window@ + "."@ + pane_id@,
{
    let mut v: Vec<char> = Vec::new();
    extend_str(&mut v, session);
    extend_str(&mut v, ":");
    extend_str(&mut v, window);
    extend_str(&mut v, ".");
    extend_str(&mut v, pane_id);
    string_from_chars(&v)
}

/// The pane part of a tmux target: what follows its last `.`, or the whole target where
/// it has none.
pub open spec fn target_pane_spec(target: Seq<char>) -> Seq<char> {
    if exists|i: int| 0 <= i < target.len() && target[i] == '.' {
        let i = choose|i: int| 0 <= i < target.len() && target[i] == '.'
            && forall|j: int| i < j < target.len() ==> target[j] != '.';
        target.skip(i + 1)
    } else {
        target
    }
}

/// The pane part of a tmux target, which keys the cache of open pane terminals.
pub fn target_pane_id(target: &str) -> (r: String)
    ensures
        r@ == target_pane_spec(target@),
{
    let v = chars_of(target);
    let mut k: usize = v.len();
    while k > 0 && v[k - 1] != '.'
        invariant
            k <= v.len(),
            v@ == target@,
            forall|j: int| k <= j < v.len() ==> v@[j] != '.',
        decreases k,
    {
        k = k - 1;
    }
    if k == 0 {
        proof {
            assert(!(exists|i: int| 0 <= i < target@.len() && target@[i] == '.'));
        }
        return string_from_chars(&v);
    }
    proof {
        let i = (k - 1) as int;
        assert(v@[i] == '.');
        let c = choose|c: int| 0 <= c < target@.len() && target@[c] == '.'
            && forall|j: int| c < j < target@.len() ==> target@[j] != '.';
        assert(c == i) by {
            if c < i { assert(target@[i] != '.'); }
            if c > i { assert(target@[c] != '.'); }
        }
    }
    let tail = slice_chars(&v, k, v.len());
    proof { assert(tail@ =~= target@.skip(k as int)); }
    string_from_chars(&tail)
}

/// What `tmux display -p -t <target> '#{pane_tty}'` says of a pane's terminal: its
/// trimmed output when tmux succeeded and printed something.
pub open spec fn pane_tty_spec(success: bool, stdout: Seq<char>, stderr: Seq<char>) -> Result<Seq<char>, Seq<char>> {
    if !success {
        Err("tmux display failed: "@ + trim(stderr))
    } else if trim(stdout).len() == 0 {
        Err("tmux returned empty pane_tty"@)
    } else {
        Ok(trim(stdout))
    }
}

/// The path of a pane's terminal from the answer of `tmux display`; a failure or an
/// empty answer is a backend error.
pub fn pane_tty_path(success: bool, stdout: &str, stderr: &str) -> (r: Result<String, RuntimeError>)
    ensures
        match pane_tty_spec(success, stdout@, stderr@) {
            Ok(p) => r matches Ok(x) && x@ == p,
            Err(m) => r matches Err(RuntimeError::Backend(x)) && x@ == m,
        },
{
    if !success {
        let mut v: Vec<char> = Vec::new();
        extend_str(&mut v, "tmux display failed: ");
        let e = trim_chars(&chars_of(stderr));
        extend_chars(&mut v, &e);
        return Err(RuntimeError::Backend(string_from_chars(&v)));
    }
    let p = trim_chars(&chars_of(stdout));
    if p.len() == 0 {
        return Err(RuntimeError::Backend(string_of("tmux returned empty pane_tty")));
    }
    Ok(string_from_chars(&p))
}

/// Whether a window named `window` appears among the lines `tmux list-windows -F
/// '#{window_name}'` printed (each line trimmed).
pub open spec fn window_listed(lines: Seq<Seq<char>>, window: Seq<char>) -> bool {
    exists|i: int| 0 <= i < lines.len() && trim(#[trigger] lines[i]) == window
}

/// Whether the control-mode runtime must add its window to an existing session: the
/// session could not be made because it already exists (tmux said `duplicate session`),
/// and the window list, where tmux gave one, does not name the window.
pub open spec fn window_needed_spec(session_created: bool, stderr: Seq<char>, window_list: Option<Seq<char>>, window: Seq<char>) -> bool {
    !session_created && contains_sub(stderr, "duplicate session"@)
        && !(window_list matches Some(out) && window_listed(lines_of(out), window))
}

/// Whether to add the window to an existing session after `tmux new-session`.
pub fn window_needed(session_created: bool, stderr: &str, window_list: Option<&str>, window: &str) -> (r: bool)
    ensures
        r == window_needed_spec(session_created, stderr@, match window_list { Some(o) => Some(o@), None => None }, window@),
{
    if session_created {
        return false;
    }
    let dup = chars_of("duplicate session");
    if !contains_chars(&chars_of(stderr), &dup) {
        return false;
    }
    assert(contains_sub(stderr@, "duplicate session"@));
    match window_list {
        None => true,
        Some(out) => {
            let ls = split_lines(&chars_of(out));
            let ghost lv = lines_view(ls@);
            let mut i: usize = 0;
            while i < ls.len()
                invariant
                    i <= ls.len(),
                    lv == lines_view(ls@),
                    lv == lines_of(out@),
                    contains_sub(stderr@, "duplicate session"@),
                    !session_created,
                    window_list == Some(out),
                    forall|k: int| 0 <= k < i ==> trim(#[trigger] lv[k]) != window@,
                decreases ls.len() - i,
            {
                let t = trim_chars(&ls[i]);
                if str_equal(string_from_chars(&t).as_str(), window) {
                    assert(trim(lv[i as int]) == window@);
                    assert(window_listed(lines_of(out@), window@));
                    return false;
                }
                i = i + 1;
            }
            true
        },
    }
}

/// The arguments of `tmux new-window` that adds `window` to `session`, detached, in
/// `start_dir` where one is given.
pub open spec fn new_window_args_spec(session: Seq<char>, window: Seq<char>, start_dir: Option<Seq<char>>) -> Seq<Seq<char>> {
    let base = seq!["new-window"@, "-d"@, "-t"@, session, "-n"@, window];
    match start_dir { Some(d) => base + seq!["-c"@, d], None => base }
}

/// The arguments of `tmux new-window` for the control-mode runtime's window.
pub fn new_window_args(session: &str, window: &str, start_dir: Option<&str>) -> (r: Vec<String>)
    ensures
        string_texts(r@) == new_window_args_spec(session@, window@, match start_dir { Some(d) => Some(d@), None => None }),
{
    let mut v: Vec<String> = Vec::new();
    v.push(string_of("new-window"));
    v.push(string_of("-d"));
    v.push(string_of("-t"));
    v.push(string_of(session));
    v.push(string_of("-n"));
    v.push(string_of(window));
    if let Some(d) = start_dir {
        v.push(string_of("-c"));
        v.push(string_of(d));
    }
    proof {
        let base = seq!["new-window"@, "-d"@, "-t"@, session@, "-n"@, window@];
        match start_dir {
            Some(d) => { assert(string_texts(v@) =~= base + seq!["-c"@, d@]); },
            None => { assert(string_texts(v@) =~= base); },
        }
    }
    v
}

/// Queued input for the panes: consecutive inputs for the same pane joined into one.
pub open spec fn merged_input(q: Seq<(Seq<char>, Seq<u8>)>) -> Seq<(Seq<char>, Seq<u8>)>
    decreases q.len(),
{
    if q.len() == 0 {
        Seq::empty()
    } else {
        let m = merged_input(q.drop_last());
        if m.len() > 0 && m.last().0 == q.last().0 {
            m.update(m.len() - 1, (q.last().0, m.last().1 + q.last().1))
        } else {
            m.push(q.last())
        }
    }
}

/// Plain values of queued input.
pub open spec fn input_view(q: Seq<(String, Vec<u8>)>) -> Seq<(Seq<char>, Seq<u8>)> {
    q.map_values(|e: (String, Vec<u8>)| (e.0@, e.1@))
}

/// Joins consecutive queued inputs for the same pane, so that a burst of keystrokes
/// becomes one command per pane.
pub fn merge_queued_input(queue: Vec<(String, Vec<u8>)>) -> (r: Vec<(String, Vec<u8>)>)
    ensures
        input_view(r@) == merged_input(input_view(queue@)),
{
    let ghost qv = input_view(queue@);
    let mut out: Vec<(String, Vec<u8>)> = Vec::new();
    let mut i: usize = 0;
    while i < queue.len()
        invariant
            i <= queue.len(),
            qv == input_view(queue@),
            input_view(out@) == merged_input(qv.take(i as int)),
        decreases queue.len() - i,
    {
        proof { assert(qv.take(i + 1).drop_last() =~= qv.take(i as int)); }
        let pane = queue[i].0.clone();
        let bytes = queue[i].1.clone();
        let n = out.len();
        let ghost before = input_view(out@);
        if n > 0 && str_equal(out[n - 1].0.as_str(), pane.as_str()) {
            let mut joined = out[n - 1].1.clone();
            let ghost j0 = joined@;
            let mut k: usize = 0;
            while k < bytes.len()
                invariant
                    k <= bytes.len(),
                    joined@ == j0 + bytes@.take(k as int),
                decreases bytes.len() - k,
            {
                joined.push(bytes[k]);
                k = k + 1;
                proof { assert(joined@ =~= j0 + bytes@.take(k as int)); }
            }
            proof { assert(bytes@.take(bytes@.len() as int) =~= bytes@); }
            out.set(n - 1, (pane, joined));
            proof { assert(input_view(out@) =~= before.update(n - 1, (qv[i as int].0, before.last().1 + qv[i as int].1))); }
        } else {
            out.push((pane, bytes));
            proof { assert(input_view(out@) =~= before.push(qv[i as int])); }
        }
        i = i + 1;
    }
    proof { assert(qv.take(qv.len() as int) =~= qv); }
    out
}

/// All the bytes of queued input, in order.
pub open spec fn all_input(q: Seq<(Seq<char>, Seq<u8>)>) -> Seq<u8>
    decreases q.len(),
{
    if q.len() == 0 { Seq::empty() } else { all_input(q.drop_last()) + q.last().1 }
}

/// Merging queued input loses, adds and reorders no byte, never puts two entries for
/// the same pane next to each other, and changes nothing where no two neighbours share
/// a pane.
pub proof fn law_merge_keeps_input(q: Seq<(Seq<char>, Seq<u8>)>)
    ensures
        all_input(merged_input(q)) == all_input(q),
        forall|i: int| 0 <= i < merged_input(q).len() - 1 ==> (#[trigger] merged_input(q)[i]).0 != merged_input(q)[i + 1].0,
        (forall|i: int| 0 <= i < q.len() - 1 ==> (#[trigger] q[i]).0 != q[i + 1].0) ==> merged_input(q) == q,
    decreases q.len(),
{
    if q.len() > 0 {
        let p = q.drop_last();
        law_merge_keeps_input(p);
        let m = merged_input(p);
        if m.len() > 0 && m.last().0 == q.last().0 {
            let u = m.update(m.len() - 1, (q.last().0, m.last().1 + q.last().1));
            assert(u.drop_last() =~= m.drop_last());
            assert(m.drop_last().push(m.last()) =~= m);
            assert(all_input(m) == all_input(m.drop_last()) + m.last().1);
            assert(all_input(u) == all_input(m.drop_last()) + (m.last().1 + q.last().1));
            assert(all_input(m.drop_last()) + (m.last().1 + q.last().1) =~= all_input(m.drop_last()) + m.last().1 + q.last().1);
            assert forall|i: int| 0 <= i < u.len() - 1 implies (#[trigger] u[i]).0 != u[i + 1].0 by {
                assert(u[i] == m[i]);
                if i + 1 < u.len() - 1 { assert(u[i + 1] == m[i + 1]); }
            }
            if forall|i: int| 0 <= i < q.len() - 1 ==> (#[trigger] q[i]).0 != q[i + 1].0 {
                assert(forall|i: int| 0 <= i < p.len() - 1 ==> (#[trigger] p[i]).0 != p[i + 1].0) by {
                    assert forall|i: int| 0 <= i < p.len() - 1 implies (#[trigger] p[i]).0 != p[i + 1].0 by {
                        assert(p[i] == q[i]);
                        assert(p[i + 1] == q[i + 1]);
                    }
                }
                assert(m == p);
                assert(q[q.len() - 2] == p.last());
            }
        } else {
            let u = m.push(q.last());
            assert(u.drop_last() =~= m);
            assert forall|i: int| 0 <= i < u.len() - 1 implies (#[trigger] u[i]).0 != u[i + 1].0 by {
                assert(u[i] == m[i]);
                if i + 1 < u.len() - 1 { assert(u[i + 1] == m[i + 1]); }
            }
            if forall|i: int| 0 <= i < q.len() - 1 ==> (#[trigger] q[i]).0 != q[i + 1].0 {
                assert forall|i: int| 0 <= i < p.len() - 1 implies (#[trigger] p[i]).0 != p[i + 1].0 by {
                    assert(p[i] == q[i]);
                    assert(p[i + 1] == q[i + 1]);
                }
                assert(m == p);
                assert(p.push(q.last()) =~= q);
            }
        }
    }
}

} // verus!
