//! tmux control mode (`-CC`) protocol: parsing of notifications from tmux and encoding
//! of input as `send-keys -H` commands.
use vstd::prelude::*;
use vstd::utf8::*;
use crate::text::{chars_of, has_prefix, contains_sub, contains_chars, string_from_chars, slice_chars,
    encode_chars, push_char, string_of};
use crate::agent_status::find_char_from;
use crate::runtime::backends::tmux::string_texts;

verus! {

/// Whether a byte is an octal digit.
pub open spec fn is_octal(b: u8) -> bool {
    0x30 <= b && b <= 0x37
}

/// Byte value of a three-digit octal escape (wrapping above 255).
pub open spec fn octal_value(a: u8, b: u8, c: u8) -> u8 {
    (((a - 0x30) * 64 + (b - 0x30) * 8 + (c - 0x30)) % 256) as u8
}

/// Undoes tmux's output escaping: `\\` is a backslash, `\ooo` an octal byte;
/// any other backslash stays as it is.
pub open spec fn unescape_raw(d: Seq<u8>) -> Seq<u8>
    decreases d.len(),
{
    if d.len() == 0 {
        Seq::empty()
    } else if d[0] == 0x5c && d.len() > 1 && d[1] == 0x5c {
        seq![0x5cu8] + unescape_raw(d.skip(2))
    } else if d[0] == 0x5c && d.len() > 3 && is_octal(d[1]) && is_octal(d[2]) && is_octal(d[3]) {
        seq![octal_value(d[1], d[2], d[3])] + unescape_raw(d.skip(4))
    } else {
        seq![d[0]] + unescape_raw(d.skip(1))
    }
}

/// Index just after the end of a title started before `j`: after `ESC \` or BEL,
/// or the length when unterminated.
pub open spec fn title_end(d: Seq<u8>, j: int) -> int
    decreases d.len() - j,
{
    if j < 0 || j >= d.len() {
        d.len() as int
    } else if d[j] == 0x1b && j + 1 < d.len() && d[j + 1] == 0x5c {
        j + 2
    } else if d[j] == 0x07 {
        j + 1
    } else {
        title_end(d, j + 1)
    }
}

proof fn lemma_title_end(d: Seq<u8>, j: int)
    requires
        0 <= j <= d.len(),
    ensures
        j <= title_end(d, j) <= d.len(),
    decreases d.len() - j,
{
    if j < d.len() {
        if !(d[j] == 0x1b && j + 1 < d.len() && d[j + 1] == 0x5c) && d[j] != 0x07 {
            lemma_title_end(d, j + 1);
        }
    }
}

/// `d` from index `i` on, without `ESC k ... ST` (or `... BEL`) window-title sequences.
pub open spec fn strip_titles_from(d: Seq<u8>, i: int) -> Seq<u8>
    decreases d.len() - i,
{
    if i < 0 || i >= d.len() {
        Seq::empty()
    } else if d[i] == 0x1b && i + 1 < d.len() && d[i + 1] == 0x6b {
        let e = title_end(d, i + 2);
        if e <= i || e > d.len() {
            Seq::empty()
        } else {
            strip_titles_from(d, e)
        }
    } else {
        seq![d[i]] + strip_titles_from(d, i + 1)
    }
}

/// Pane output bytes as tmux sends them, made raw again.
pub open spec fn unescape_output(d: Seq<u8>) -> Seq<u8> {
    strip_titles_from(unescape_raw(d), 0)
}

/// Unescapes tmux control-mode output data and drops window-title sequences.
pub fn unescape_tmux_output(data: &[u8]) -> (r: Vec<u8>)
    ensures
        r@ == unescape_output(data@),
{
    let mut result: Vec<u8> = Vec::new();
    let mut i: usize = 0;
    assert(data@.skip(0) =~= data@);
    while i < data.len()
        invariant
            i <= data.len(),
            result@ + unescape_raw(data@.skip(i as int)) == unescape_raw(data@),
        decreases data.len() - i,
    {
        let ghost rest = data@.skip(i as int);
        if data[i] == 0x5c && data.len() - i > 1 && data[i + 1] == 0x5c {
            proof { assert(rest.skip(2) =~= data@.skip(i + 2)); }
            result.push(0x5c);
            proof { assert(result@ + unescape_raw(data@.skip(i + 2)) =~= result@.drop_last() + unescape_raw(rest)); }
            i = i + 2;
        } else if data[i] == 0x5c && data.len() - i > 3 && 0x30 <= data[i + 1] && data[i + 1] <= 0x37
            && 0x30 <= data[i + 2] && data[i + 2] <= 0x37 && 0x30 <= data[i + 3] && data[i + 3] <= 0x37 {
            let val: u16 = ((data[i + 1] - 0x30) as u16) * 64 + ((data[i + 2] - 0x30) as u16) * 8 + (data[i + 3] - 0x30) as u16;
            let byte = (val % 256) as u8;
            proof {
                assert(rest.skip(4) =~= data@.skip(i + 4));
                assert(byte == octal_value(rest[1], rest[2], rest[3]));
            }
            result.push(byte);
            proof { assert(result@ + unescape_raw(data@.skip(i + 4)) =~= result@.drop_last() + unescape_raw(rest)); }
            i = i + 4;
        } else {
            proof { assert(rest.skip(1) =~= data@.skip(i + 1)); }
            result.push(data[i]);
            proof { assert(result@ + unescape_raw(data@.skip(i + 1)) =~= result@.drop_last() + unescape_raw(rest)); }
            i = i + 1;
        }
    }
    proof {
        assert(data@.skip(data@.len() as int) =~= Seq::<u8>::empty());
        assert(result@ + Seq::<u8>::empty() =~= result@);
    }
    strip_tmux_title_sequences(&result)
}

/// Index just after the title that starts at `j` (see [`title_end`]).
fn title_end_exec(data: &Vec<u8>, j: usize) -> (r: usize)
    requires
        j <= data.len(),
    ensures
        r == title_end(data@, j as int),
{
    let mut k = j;
    while k < data.len()
        invariant
            j <= k <= data.len(),
            title_end(data@, j as int) == title_end(data@, k as int),
        decreases data.len() - k,
    {
        if data[k] == 0x1b && k + 1 < data.len() && data[k + 1] == 0x5c {
            return k + 2;
        } else if data[k] == 0x07 {
            return k + 1;
        }
        k = k + 1;
    }
    data.len()
}

/// Drops tmux/screen window-title sequences `ESC k <title> ESC \` (or `... BEL`).
pub fn strip_tmux_title_sequences(data: &Vec<u8>) -> (r: Vec<u8>)
    ensures
        r@ == strip_titles_from(data@, 0),
{
    let mut result: Vec<u8> = Vec::new();
    let mut i: usize = 0;
    while i < data.len()
        invariant
            i <= data.len(),
            result@ + strip_titles_from(data@, i as int) == strip_titles_from(data@, 0),
        decreases data.len() - i,
    {
        if data[i] == 0x1b && i + 1 < data.len() && data[i + 1] == 0x6b {
            proof { lemma_title_end(data@, i + 2); }
            let e = title_end_exec(data, i + 2);
            i = e;
        } else {
            result.push(data[i]);
            proof { assert(result@ + strip_titles_from(data@, i + 1) =~= result@.drop_last() + strip_titles_from(data@, i as int)); }
            i = i + 1;
        }
    }
    proof { assert(result@ + Seq::<u8>::empty() =~= result@); }
    result
}


/// An event of the tmux control-mode protocol.
#[derive(Debug, Clone)]
pub enum ControlModeEvent {
    Output { pane_id: String, data: Vec<u8> },
    BeginEnd { tag: String, response: Vec<u8> },
    Exit,
    SessionChanged { session_id: String, name: String },
    WindowAdd { window_id: String },
    WindowClose { window_id: String },
    LayoutChanged { window_id: String, layout: String },
    Unknown(String),
}

/// A control-mode event as plain values.
pub enum EventView {
    Output { pane_id: Seq<char>, data: Seq<u8> },
    BeginEnd { tag: Seq<char>, response: Seq<u8> },
    Exit,
    SessionChanged { session_id: Seq<char>, name: Seq<char> },
    WindowAdd { window_id: Seq<char> },
    WindowClose { window_id: Seq<char> },
    LayoutChanged { window_id: Seq<char>, layout: Seq<char> },
    Unknown(Seq<char>),
}

impl View for ControlModeEvent {
    type V = EventView;

    open spec fn view(&self) -> EventView {
        match self {
            ControlModeEvent::Output { pane_id, data } => EventView::Output { pane_id: pane_id@, data: data@ },
            ControlModeEvent::BeginEnd { tag, response } => EventView::BeginEnd { tag: tag@, response: response@ },
            ControlModeEvent::Exit => EventView::Exit,
            ControlModeEvent::SessionChanged { session_id, name } => EventView::SessionChanged { session_id: session_id@, name: name@ },
            ControlModeEvent::WindowAdd { window_id } => EventView::WindowAdd { window_id: window_id@ },
            ControlModeEvent::WindowClose { window_id } => EventView::WindowClose { window_id: window_id@ },
            ControlModeEvent::LayoutChanged { window_id, layout } => EventView::LayoutChanged { window_id: window_id@, layout: layout@ },
            ControlModeEvent::Unknown(s) => EventView::Unknown(s@),
        }
    }
}

/// What `String::from_utf8_lossy` makes of a byte sequence.
pub uninterp spec fn lossy_text(bytes: Seq<u8>) -> Seq<char>;

/// Decodes a line, replacing invalid UTF-8 with U+FFFD.
/// Trusted: calls `String::from_utf8_lossy` (std); its result is named [`lossy_text`], and,
/// as std documents, valid UTF-8 is decoded unchanged.
#[verifier::external_body]
fn utf8_lossy(b: &[u8]) -> (s: String)
    ensures
        s@ == lossy_text(b@),
        valid_utf8(b@) ==> s@ == decode_utf8(b@),
{
    String::from_utf8_lossy(b).into_owned()
}

/// `s` without trailing carriage returns.
pub open spec fn trim_cr(s: Seq<char>) -> Seq<char>
    decreases s.len(),
{
    if s.len() > 0 && s.last() == '\r' { trim_cr(s.drop_last()) } else { s }
}

/// Up to the first space (all of `s` if there is none).
pub open spec fn first_word(s: Seq<char>) -> Seq<char> {
    match find_char_from(s, ' ', 0) { Some(i) => s.subrange(0, i), None => s }
}

/// After the first space (empty if there is none).
pub open spec fn after_first_word(s: Seq<char>) -> Seq<char> {
    match find_char_from(s, ' ', 0) { Some(i) => s.skip(i + 1), None => Seq::empty() }
}

/// What follows a notification prefix.
pub open spec fn after(s: Seq<char>, p: Seq<char>) -> Seq<char> {
    s.skip(p.len() as int)
}

/// One complete line through the parser, given the decoded text `s` of the raw bytes
/// `line`: the new pending `%begin` tag, the new pending response, and the event.
pub open spec fn parse_line_spec(in_begin: Option<Seq<char>>, resp: Seq<u8>, text: Seq<char>, line: Seq<u8>)
    -> (Option<Seq<char>>, Seq<u8>, Option<EventView>)
{
    let s = trim_cr(text);
    match in_begin {
        Some(tag) => if has_prefix(s, "%end "@) && contains_sub(s, tag) {
            (None, Seq::empty(), Some(EventView::BeginEnd { tag, response: resp }))
        } else {
            (in_begin, resp + line.push(0x0a), None)
        },
        None => if has_prefix(s, "%begin "@) {
            (Some(after(s, "%begin "@)), Seq::empty(), None)
        } else if has_prefix(s, "%output "@) {
            let rest = after(s, "%output "@);
            match find_char_from(rest, ' ', 0) {
                None => (None, resp, None),
                Some(i) => (None, resp, Some(EventView::Output {
                    pane_id: rest.subrange(0, i),
                    data: unescape_output(encode_utf8(rest.skip(i + 1))),
                })),
            }
        } else if s == "%exit"@ {
            (None, resp, Some(EventView::Exit))
        } else if has_prefix(s, "%session-changed "@) {
            let rest = after(s, "%session-changed "@);
            (None, resp, Some(EventView::SessionChanged { session_id: first_word(rest), name: after_first_word(rest) }))
        } else if has_prefix(s, "%window-add "@) {
            (None, resp, Some(EventView::WindowAdd { window_id: after(s, "%window-add "@) }))
        } else if has_prefix(s, "%window-close "@) {
            (None, resp, Some(EventView::WindowClose { window_id: after(s, "%window-close "@) }))
        } else if has_prefix(s, "%layout-change "@) {
            let rest = after(s, "%layout-change "@);
            (None, resp, Some(EventView::LayoutChanged { window_id: first_word(rest), layout: after_first_word(rest) }))
        } else {
            (None, resp, Some(EventView::Unknown(s)))
        },
    }
}

/// Parser state as plain values: partial line, pending `%begin` tag, pending response.
pub type ParserView = (Seq<u8>, Option<Seq<char>>, Seq<u8>);

/// One byte through the parser: a newline completes the line.
pub open spec fn cm_step(v: ParserView, b: u8) -> (ParserView, Option<EventView>) {
    if b == 0x0a {
        let (ib, rs, ev) = parse_line_spec(v.1, v.2, lossy_text(v.0), v.0);
        ((Seq::empty(), ib, rs), ev)
    } else {
        ((v.0.push(b), v.1, v.2), None)
    }
}

/// A byte sequence through the parser: final state and events in order.
pub open spec fn cm_feed(v: ParserView, bytes: Seq<u8>) -> (ParserView, Seq<EventView>)
    decreases bytes.len(),
{
    if bytes.len() == 0 {
        (v, Seq::empty())
    } else {
        let (v1, out1) = cm_feed(v, bytes.drop_last());
        let (v2, m) = cm_step(v1, bytes.last());
        (v2, match m { Some(x) => out1.push(x), None => out1 })
    }
}

/// The events of a vector, as plain values.
pub open spec fn events_view(v: Seq<ControlModeEvent>) -> Seq<EventView> {
    v.map_values(|e: ControlModeEvent| e@)
}

/// Line-oriented parser of tmux control-mode output.
pub struct ControlModeParser {
    line_buf: Vec<u8>,
    in_begin: Option<String>,
    begin_response: Vec<u8>,
}

impl View for ControlModeParser {
    type V = ParserView;

    closed spec fn view(&self) -> ParserView {
        (self.line_buf@, match self.in_begin { Some(t) => Some(t@), None => None }, self.begin_response@)
    }
}

/// `v[from..]` as a `String`.
fn string_from(v: &Vec<char>, from: usize) -> (r: String)
    requires
        from <= v.len(),
    ensures
        r@ == v@.skip(from as int),
{
    let t = slice_chars(v, from, v.len());
    string_from_chars(&t)
}

/// Index of the first space at or after `from`.
fn find_space(v: &Vec<char>, from: usize) -> (r: Option<usize>)
    requires
        from <= v.len(),
    ensures
        match r {
            Some(i) => find_char_from(v@, ' ', from as int) == Some(i as int) && from <= i < v.len(),
            None => find_char_from(v@, ' ', from as int) is None,
        },
{
    let mut k = from;
    while k < v.len()
        invariant
            from <= k <= v.len(),
            find_char_from(v@, ' ', from as int) == find_char_from(v@, ' ', k as int),
        decreases v.len() - k,
    {
        if v[k] == ' ' {
            return Some(k);
        }
        k = k + 1;
    }
    None
}

/// Splits `v[from..]` at its first space, as `splitn(2, ' ')` does.
fn split_word(v: &Vec<char>, from: usize) -> (r: (String, String))
    requires
        from <= v.len(),
    ensures
        r.0@ == first_word(v@.skip(from as int)),
        r.1@ == after_first_word(v@.skip(from as int)),
{
    let ghost rest = v@.skip(from as int);
    proof { crate::shell_integration::lemma_find_shift(v@, ' ', from as int, 0); }
    match find_space(v, from) {
        Some(i) => {
            let a = slice_chars(v, from, i);
            proof {
                assert(rest.subrange(0, i - from) =~= v@.subrange(from as int, i as int));
                assert(rest.skip(i - from + 1) =~= v@.skip(i + 1));
            }
            (string_from_chars(&a), string_from(v, i + 1))
        },
        None => {
            let e: Vec<char> = Vec::new();
            (string_from(v, from), string_from_chars(&e))
        },
    }
}

impl ControlModeParser {
    /// Parser with no partial line and no pending `%begin` block.
    pub fn new() -> (r: Self)
        ensures
            r@ == (Seq::<u8>::empty(), None::<Seq<char>>, Seq::<u8>::empty()),
    {
        ControlModeParser { line_buf: Vec::new(), in_begin: None, begin_response: Vec::new() }
    }

    /// Feeds bytes; returns the events of the lines they complete, in order.
    pub fn feed(&mut self, bytes: &[u8]) -> (r: Vec<ControlModeEvent>)
        ensures
            (final(self)@, events_view(r@)) == cm_feed(old(self)@, bytes@),
    {
        let mut events: Vec<ControlModeEvent> = Vec::new();
        let mut i: usize = 0;
        while i < bytes.len()
            invariant
                i <= bytes.len(),
                (self@, events_view(events@)) == cm_feed(old(self)@, bytes@.take(i as int)),
            decreases bytes.len() - i,
        {
            proof { assert(bytes@.take(i + 1).drop_last() =~= bytes@.take(i as int)); }
            let b = bytes[i];
            if b == 0x0a {
                let mut line: Vec<u8> = Vec::new();
                std::mem::swap(&mut line, &mut self.line_buf);
                let text = utf8_lossy(line.as_slice());
                let ghost before = events_view(events@);
                if let Some(ev) = self.parse_line_text(text.as_str(), line.as_slice()) {
                    events.push(ev);
                    proof { assert(events_view(events@) =~= before.push(ev@)); }
                }
            } else {
                self.line_buf.push(b);
            }
            i = i + 1;
        }
        proof { assert(bytes@.take(bytes@.len() as int) =~= bytes@); }
        events
    }

    /// Parses one complete line: `text` is its decoded text, `line` its raw bytes
    /// (kept verbatim in the response of a `%begin`/`%end` block).
    pub fn parse_line_text(&mut self, text: &str, line: &[u8]) -> (r: Option<ControlModeEvent>)
        requires
            old(self)@.0.len() == 0,
        ensures
            ({
                let (ib, rs, ev) = parse_line_spec(old(self)@.1, old(self)@.2, text@, line@);
                &&& final(self)@ == (old(self)@.0, ib, rs)
                &&& match r { Some(e) => ev == Some(e@), None => ev is None }
            }),
    {
        let raw = chars_of(text);
        let mut n = raw.len();
        let ghost full = raw@;
        assert(raw@.subrange(0, raw@.len() as int) =~= raw@);
        while n > 0 && raw[n - 1] == '\r'
            invariant
                n <= raw.len(),
                trim_cr(full) == trim_cr(raw@.subrange(0, n as int)),
            decreases n,
        {
            proof { assert(raw@.subrange(0, n as int).drop_last() =~= raw@.subrange(0, n - 1)); }
            n = n - 1;
        }
        proof { assert(raw@.subrange(0, raw@.len() as int) =~= raw@); }
        let s = slice_chars(&raw, 0, n);
        assert(s@ == trim_cr(text@));
        let p_end = chars_of("%end ");
        let p_begin = chars_of("%begin ");
        let p_output = chars_of("%output ");
        let p_exit = chars_of("%exit");
        let p_session = chars_of("%session-changed ");
        let p_wadd = chars_of("%window-add ");
        let p_wclose = chars_of("%window-close ");
        let p_layout = chars_of("%layout-change ");
        if self.in_begin.is_some() {
            let tag = self.in_begin.clone().unwrap();
            let tag_chars = chars_of(tag.as_str());
            if crate::text::starts_with_chars(&s, &p_end) && contains_chars(&s, &tag_chars) {
                let mut response: Vec<u8> = Vec::new();
                std::mem::swap(&mut response, &mut self.begin_response);
                self.in_begin = None;
                return Some(ControlModeEvent::BeginEnd { tag, response });
            } else {
                let mut k: usize = 0;
                let ghost r0 = self.begin_response@;
                while k < line.len()
                    invariant
                        k <= line.len(),
                        self.begin_response@ == r0 + line@.take(k as int),
                        self.line_buf@ == old(self).line_buf@,
                        self.in_begin == old(self).in_begin,
                    decreases line.len() - k,
                {
                    self.begin_response.push(line[k]);
                    proof { assert(self.begin_response@ =~= r0 + line@.take(k + 1)); }
                    k = k + 1;
                }
                self.begin_response.push(0x0a);
                proof { assert(self.begin_response@ =~= r0 + line@.push(0x0a)); }
                return None;
            }
        }
        if crate::text::starts_with_chars(&s, &p_begin) {
            let tag = string_from(&s, p_begin.len());
            self.in_begin = Some(tag);
            self.begin_response.clear();
            return None;
        }
        if crate::text::starts_with_chars(&s, &p_output) {
            let rest = slice_chars(&s, p_output.len(), s.len());
            assert(rest@ =~= after(s@, "%output "@));
            match find_space(&rest, 0) {
                None => { return None; },
                Some(i) => {
                    let pane = slice_chars(&rest, 0, i);
                    let tail = slice_chars(&rest, i + 1, rest.len());
                    assert(tail@ =~= rest@.skip(i + 1));
                    let raw_bytes = encode_chars(&tail);
                    let data = unescape_tmux_output(raw_bytes.as_slice());
                    return Some(ControlModeEvent::Output { pane_id: string_from_chars(&pane), data });
                },
            }
        }
        if crate::text::chars_equal(&s, &p_exit) {
            return Some(ControlModeEvent::Exit);
        }
        if crate::text::starts_with_chars(&s, &p_session) {
            let (a, b) = split_word(&s, p_session.len());
            return Some(ControlModeEvent::SessionChanged { session_id: a, name: b });
        }
        if crate::text::starts_with_chars(&s, &p_wadd) {
            return Some(ControlModeEvent::WindowAdd { window_id: string_from(&s, p_wadd.len()) });
        }
        if crate::text::starts_with_chars(&s, &p_wclose) {
            return Some(ControlModeEvent::WindowClose { window_id: string_from(&s, p_wclose.len()) });
        }
        if crate::text::starts_with_chars(&s, &p_layout) {
            let (a, b) = split_word(&s, p_layout.len());
            return Some(ControlModeEvent::LayoutChanged { window_id: a, layout: b });
        }
        Some(ControlModeEvent::Unknown(string_from_chars(&s)))
    }
}


/// Feeding bytes in two pieces gives what feeding them at once gives.
pub proof fn law_cm_feed_concat(v: ParserView, a: Seq<u8>, b: Seq<u8>)
    ensures
        ({
            let (v1, o1) = cm_feed(v, a);
            let (v2, o2) = cm_feed(v1, b);
            cm_feed(v, a + b) == (v2, o1 + o2)
        }),
    decreases b.len(),
{
    if b.len() == 0 {
        assert(a + b =~= a);
        let (v1, o1) = cm_feed(v, a);
        assert(o1 + Seq::<EventView>::empty() =~= o1);
    } else {
        law_cm_feed_concat(v, a, b.drop_last());
        assert((a + b).drop_last() =~= a + b.drop_last());
        assert((a + b).last() == b.last());
        let (v1, o1) = cm_feed(v, a);
        let (v2, o2) = cm_feed(v1, b.drop_last());
        let (v3, m) = cm_step(v2, b.last());
        match m {
            Some(x) => { assert((o1 + o2).push(x) =~= o1 + o2.push(x)); },
            None => {},
        }
    }
}

/// Bytes without a newline complete no line: they only extend the partial line.
pub proof fn law_cm_partial_line(v: ParserView, bytes: Seq<u8>)
    requires
        forall|i: int| 0 <= i < bytes.len() ==> bytes[i] != 0x0a,
    ensures
        cm_feed(v, bytes) == ((v.0 + bytes, v.1, v.2), Seq::<EventView>::empty()),
    decreases bytes.len(),
{
    if bytes.len() == 0 {
        assert(v.0 + bytes =~= v.0);
    } else {
        law_cm_partial_line(v, bytes.drop_last());
        assert(bytes.last() == bytes[bytes.len() - 1]);
        assert((v.0 + bytes.drop_last()).push(bytes.last()) =~= v.0 + bytes);
    }
}

/// Maximum number of raw bytes carried by one `send-keys -H` command.
pub const HEX_SEND_KEYS_CHUNK: usize = 512;

/// Lowercase hexadecimal digit of a value below 16.
pub open spec fn hex_digit(n: u8) -> char {
    if n < 10 { (('0' as u8) + n) as char } else { (('a' as u8) + n - 10) as char }
}

/// ` hh`: a space and the byte in two lowercase hex digits.
pub open spec fn hex_pair(b: u8) -> Seq<char> {
    seq![' ', hex_digit(b / 16), hex_digit(b % 16)]
}

/// The hex pairs of a chunk, in order.
pub open spec fn hex_body(chunk: Seq<u8>) -> Seq<char>
    decreases chunk.len(),
{
    if chunk.len() == 0 { Seq::empty() } else { hex_body(chunk.drop_last()) + hex_pair(chunk.last()) }
}

/// The command that sends `chunk` to `pane`.
pub open spec fn hex_command(pane: Seq<char>, chunk: Seq<u8>) -> Seq<char> {
    "send-keys -H -t "@ + pane + hex_body(chunk)
}

/// The `k`-th chunk of `bytes`.
pub open spec fn chunk_at(bytes: Seq<u8>, k: int) -> Seq<u8> {
    let start = k * 512;
    let end = if start + 512 < bytes.len() { start + 512 } else { bytes.len() as int };
    bytes.subrange(start, end)
}

/// Number of chunks of `n` bytes.
pub open spec fn chunk_count(n: nat) -> nat {
    ((n + 511) / 512) as nat
}

fn hex_digit_exec(n: u8) -> (c: char)
    requires
        n < 16,
    ensures
        c == hex_digit(n),
{
    if n < 10 { (('0' as u8) + n) as char } else { (('a' as u8) + n - 10) as char }
}

/// `tmux send-keys -H` commands that type `bytes` into `pane_id`, one per chunk of at
/// most `HEX_SEND_KEYS_CHUNK` bytes; no command for empty input.
pub fn build_hex_send_keys(pane_id: &str, bytes: &[u8]) -> (r: Vec<String>)
    ensures
        r@.len() == chunk_count(bytes@.len()),
        forall|k: int| 0 <= k < r@.len() ==> #[trigger] r@[k]@ == hex_command(pane_id@, chunk_at(bytes@, k)),
{
    let mut cmds: Vec<String> = Vec::new();
    let mut start: usize = 0;
    let prefix = chars_of("send-keys -H -t ");
    let pane = chars_of(pane_id);
    while start < bytes.len()
        invariant
            start <= bytes.len(),
            start == cmds@.len() * 512 || start == bytes.len(),
            start == bytes.len() ==> cmds@.len() == chunk_count(bytes@.len()),
            start < bytes.len() ==> start == cmds@.len() * 512,
            prefix@ == "send-keys -H -t "@,
            pane@ == pane_id@,
            forall|k: int| 0 <= k < cmds@.len() ==> #[trigger] cmds@[k]@ == hex_command(pane_id@, chunk_at(bytes@, k)),
        decreases bytes.len() - start,
    {
        let end = if bytes.len() - start > 512 { start + 512 } else { bytes.len() };
        let mut cmd: Vec<char> = Vec::new();
        let mut t: usize = 0;
        while t < prefix.len()
            invariant
                t <= prefix.len(),
                cmd@ == prefix@.take(t as int),
            decreases prefix.len() - t,
        {
            cmd.push(prefix[t]);
            proof { assert(cmd@ =~= prefix@.take(t + 1)); }
            t = t + 1;
        }
        let mut t: usize = 0;
        while t < pane.len()
            invariant
                t <= pane.len(),
                cmd@ == prefix@ + pane@.take(t as int),
            decreases pane.len() - t,
        {
            cmd.push(pane[t]);
            proof { assert(cmd@ =~= prefix@ + pane@.take(t + 1)); }
            t = t + 1;
        }
        proof { assert(pane@.take(pane@.len() as int) =~= pane@); assert(prefix@.take(prefix@.len() as int) =~= prefix@); }
        let mut j = start;
        proof { assert(bytes@.subrange(start as int, start as int) =~= Seq::<u8>::empty()); }
        while j < end
            invariant
                start <= j <= end,
                end <= bytes.len(),
                cmd@ == prefix@ + pane@ + hex_body(bytes@.subrange(start as int, j as int)),
            decreases end - j,
        {
            let b = bytes[j];
            cmd.push(' ');
            cmd.push(hex_digit_exec(b / 16));
            cmd.push(hex_digit_exec(b % 16));
            proof {
                assert(bytes@.subrange(start as int, j + 1).drop_last() =~= bytes@.subrange(start as int, j as int));
                assert(cmd@ =~= prefix@ + pane@ + hex_body(bytes@.subrange(start as int, j + 1)));
            }
            j = j + 1;
        }
        let ghost k = cmds@.len() as int;
        proof {
            assert(start == k * 512);
            assert(chunk_at(bytes@, k) =~= bytes@.subrange(start as int, end as int));
        }
        cmds.push(string_from_chars(&cmd));
        proof {
            assert(prefix@ + pane@ + hex_body(bytes@.subrange(start as int, end as int)) =~= hex_command(pane_id@, chunk_at(bytes@, k)));
        }
        start = end;
    }
    cmds
}

/// The chunks cover the input exactly: each holds at most `HEX_SEND_KEYS_CHUNK` bytes,
/// all but the last hold exactly that many, and the last ends at the end of the input.
pub proof fn law_hex_chunks_cover(n: nat)
    requires
        n > 0,
    ensures
        (chunk_count(n) - 1) * 512 < n,
        n <= chunk_count(n) * 512,
{
}

/// A byte typed as itself: printable ASCII.
pub open spec fn is_plain_byte(b: u8) -> bool {
    0x20 <= b && b < 0x7f
}

/// A UTF-8 continuation byte.
pub open spec fn is_continuation(b: u8) -> bool {
    0x80 <= b && b < 0xc0
}

/// End of the run of printable bytes starting at `i`.
pub open spec fn plain_run_end(b: Seq<u8>, i: int) -> int
    decreases b.len() - i,
{
    if 0 <= i < b.len() && is_plain_byte(b[i]) { plain_run_end(b, i + 1) } else { i }
}

/// End of the continuation bytes starting at `i`.
pub open spec fn continuation_end(b: Seq<u8>, i: int) -> int
    decreases b.len() - i,
{
    if 0 <= i < b.len() && is_continuation(b[i]) { continuation_end(b, i + 1) } else { i }
}

/// `s` with every `'` written as `'\''`, for a single-quoted shell word.
pub open spec fn quote_escape(s: Seq<char>) -> Seq<char>
    decreases s.len(),
{
    if s.len() == 0 {
        Seq::empty()
    } else {
        quote_escape(s.drop_last()) + if s.last() == '\'' { seq!['\'', '\\', '\'', '\''] } else { seq![s.last()] }
    }
}

/// The command that presses the named key `key` in `pane`.
pub open spec fn key_command(pane: Seq<char>, key: Seq<char>) -> Seq<char> {
    "send-keys -t "@ + pane + " "@ + key
}

/// The command that types `bytes` (decoded, invalid UTF-8 replaced) literally in `pane`.
pub open spec fn literal_command(pane: Seq<char>, bytes: Seq<u8>) -> Seq<char> {
    "send-keys -l -t "@ + pane + " '"@ + quote_escape(lossy_text(bytes)) + "'"@
}

/// The key for `ESC [` followed by the bytes at `i + 2`, and where the input resumes:
/// arrows, Home and End; Insert, Delete, Page Up and Page Down as `ESC [ n ~`; anything
/// else is a lone Escape.
pub open spec fn csi_step(b: Seq<u8>, i: int) -> (Seq<char>, int) {
    let c = b[i + 2];
    if c == 0x41 { ("Up"@, i + 3) }
    else if c == 0x42 { ("Down"@, i + 3) }
    else if c == 0x43 { ("Right"@, i + 3) }
    else if c == 0x44 { ("Left"@, i + 3) }
    else if c == 0x48 { ("Home"@, i + 3) }
    else if c == 0x46 { ("End"@, i + 3) }
    else if 0x31 <= c && c <= 0x39 && i + 3 < b.len() && b[i + 3] == 0x7e {
        if c == 0x32 { ("IC"@, i + 4) }
        else if c == 0x33 { ("DC"@, i + 4) }
        else if c == 0x35 { ("PPage"@, i + 4) }
        else if c == 0x36 { ("NPage"@, i + 4) }
        else { ("Escape"@, i + 1) }
    } else { ("Escape"@, i + 1) }
}

/// The command for the non-printable byte at `i`, and where the input resumes: an escape
/// sequence, Enter, Tab, Backspace, Escape or Ctrl with a letter as key presses; any other
/// byte together with the continuation bytes after it is typed literally.
pub open spec fn special_step(pane: Seq<char>, b: Seq<u8>, i: int) -> (Seq<char>, int) {
    let x = b[i];
    if x == 0x1b && i + 2 < b.len() && b[i + 1] == 0x5b {
        (key_command(pane, csi_step(b, i).0), csi_step(b, i).1)
    } else if x == 0x0d || x == 0x0a {
        (key_command(pane, "Enter"@), i + 1)
    } else if x == 0x09 {
        (key_command(pane, "Tab"@), i + 1)
    } else if x == 0x08 || x == 0x7f {
        (key_command(pane, "BSpace"@), i + 1)
    } else if x == 0x1b {
        (key_command(pane, "Escape"@), i + 1)
    } else if 0x01 <= x && x <= 0x1a {
        (key_command(pane, seq!['C', '-', ((0x61 + x - 1) as u8) as char]), i + 1)
    } else {
        let j = continuation_end(b, i + 1);
        (literal_command(pane, b.subrange(i, j)), j)
    }
}

/// The `send-keys` commands that type `b` from `i` on into `pane`: runs of printable
/// bytes are typed literally, everything else as above.
pub open spec fn send_keys_from(pane: Seq<char>, b: Seq<u8>, i: int) -> Seq<Seq<char>>
    decreases b.len() - i,
{
    if i < 0 || i >= b.len() {
        Seq::empty()
    } else if is_plain_byte(b[i]) {
        let j = plain_run_end(b, i);
        if i < j <= b.len() {
            seq![literal_command(pane, b.subrange(i, j))] + send_keys_from(pane, b, j)
        } else {
            Seq::empty()
        }
    } else {
        let n = special_step(pane, b, i).1;
        if i < n <= b.len() {
            seq![special_step(pane, b, i).0] + send_keys_from(pane, b, n)
        } else {
            Seq::empty()
        }
    }
}

proof fn lemma_plain_run_end(b: Seq<u8>, i: int)
    requires
        0 <= i <= b.len(),
    ensures
        i <= plain_run_end(b, i) <= b.len(),
        plain_run_end(b, i) < b.len() ==> !is_plain_byte(b[plain_run_end(b, i)]),
        i < b.len() && is_plain_byte(b[i]) ==> plain_run_end(b, i) > i,
    decreases b.len() - i,
{
    if i < b.len() && is_plain_byte(b[i]) {
        lemma_plain_run_end(b, i + 1);
    }
}

proof fn lemma_continuation_end(b: Seq<u8>, i: int)
    requires
        0 <= i <= b.len(),
    ensures
        i <= continuation_end(b, i) <= b.len(),
    decreases b.len() - i,
{
    if i < b.len() && is_continuation(b[i]) {
        lemma_continuation_end(b, i + 1);
    }
}

fn push_str_chars(v: &mut Vec<char>, s: &str)
    ensures
        final(v)@ == old(v)@ + s@,
{
    let c = chars_of(s);
    let mut i: usize = 0;
    let ghost v0 = v@;
    while i < c.len()
        invariant
            i <= c@.len(),
            v@ == v0 + c@.take(i as int),
        decreases c@.len() - i,
    {
        v.push(c[i]);
        proof { assert(v@ =~= v0 + c@.take(i + 1)); }
        i = i + 1;
    }
    proof { assert(c@.take(c@.len() as int) =~= c@); }
}

fn key_command_exec(pane: &str, key: &str) -> (r: String)
    ensures
        r@ == key_command(pane@, key@),
{
    let mut v: Vec<char> = Vec::new();
    push_str_chars(&mut v, "send-keys -t ");
    push_str_chars(&mut v, pane);
    push_str_chars(&mut v, " ");
    push_str_chars(&mut v, key);
    string_from_chars(&v)
}

fn literal_command_exec(pane: &str, bytes: &[u8], from: usize, to: usize) -> (r: String)
    requires
        from <= to <= bytes@.len(),
    ensures
        r@ == literal_command(pane@, bytes@.subrange(from as int, to as int)),
{
    let mut part: Vec<u8> = Vec::new();
    let mut k = from;
    while k < to
        invariant
            from <= k <= to,
            to <= bytes@.len(),
            part@ == bytes@.subrange(from as int, k as int),
        decreases to - k,
    {
        part.push(bytes[k]);
        proof { assert(part@ =~= bytes@.subrange(from as int, k + 1)); }
        k = k + 1;
    }
    let text = utf8_lossy(part.as_slice());
    let t = chars_of(text.as_str());
    let mut v: Vec<char> = Vec::new();
    push_str_chars(&mut v, "send-keys -l -t ");
    push_str_chars(&mut v, pane);
    push_str_chars(&mut v, " '");
    let ghost v0 = v@;
    let mut i: usize = 0;
    while i < t.len()
        invariant
            i <= t@.len(),
            v@ == v0 + quote_escape(t@.take(i as int)),
        decreases t@.len() - i,
    {
        proof { assert(t@.take(i + 1).drop_last() =~= t@.take(i as int)); }
        if t[i] == '\'' {
            v.push('\'');
            v.push('\\');
            v.push('\'');
            v.push('\'');
        } else {
            v.push(t[i]);
        }
        proof { assert(v@ =~= v0 + quote_escape(t@.take(i + 1))); }
        i = i + 1;
    }
    proof { assert(t@.take(t@.len() as int) =~= t@); }
    push_str_chars(&mut v, "'");
    string_from_chars(&v)
}

/// `tmux send-keys` commands that type `bytes` into `pane_id`, one command per run of
/// printable bytes, key press or other character.
pub fn build_send_keys_commands(pane_id: &str, bytes: &[u8]) -> (r: Vec<String>)
    ensures
        string_texts(r@) == send_keys_from(pane_id@, bytes@, 0),
{
    let mut commands: Vec<String> = Vec::new();
    let n = bytes.len();
    let mut i: usize = 0;
    while i < n
        invariant
            i <= n,
            n == bytes@.len(),
            string_texts(commands@) + send_keys_from(pane_id@, bytes@, i as int) == send_keys_from(pane_id@, bytes@, 0),
        decreases n - i,
    {
        let ghost b = bytes@;
        let ghost before = string_texts(commands@);
        let x = bytes[i];
        if 0x20 <= x && x < 0x7f {
            proof { lemma_plain_run_end(b, i as int); }
            let mut j = i;
            while j < n && 0x20 <= bytes[j] && bytes[j] < 0x7f
                invariant
                    i <= j <= n,
                    n == bytes@.len(),
                    plain_run_end(bytes@, i as int) == plain_run_end(bytes@, j as int),
                decreases n - j,
            {
                j = j + 1;
            }
            let cmd = literal_command_exec(pane_id, bytes, i, j);
            commands.push(cmd);
            proof {
                assert(string_texts(commands@) =~= before.push(cmd@));
                assert(send_keys_from(pane_id@, b, i as int) == seq![cmd@] + send_keys_from(pane_id@, b, j as int));
                assert(before.push(cmd@) + send_keys_from(pane_id@, b, j as int) =~= before + (seq![cmd@] + send_keys_from(pane_id@, b, j as int)));
            }
            i = j;
        } else {
            let mut next: usize = i + 1;
            let cmd: String;
            if x == 0x1b && n - i > 2 && bytes[i + 1] == 0x5b {
                let c = bytes[i + 2];
                let key: &str;
                if c == 0x41 { key = "Up"; next = i + 3; }
                else if c == 0x42 { key = "Down"; next = i + 3; }
                else if c == 0x43 { key = "Right"; next = i + 3; }
                else if c == 0x44 { key = "Left"; next = i + 3; }
                else if c == 0x48 { key = "Home"; next = i + 3; }
                else if c == 0x46 { key = "End"; next = i + 3; }
                else if 0x31 <= c && c <= 0x39 && n - i > 3 && bytes[i + 3] == 0x7e {
                    if c == 0x32 { key = "IC"; next = i + 4; }
                    else if c == 0x33 { key = "DC"; next = i + 4; }
                    else if c == 0x35 { key = "PPage"; next = i + 4; }
                    else if c == 0x36 { key = "NPage"; next = i + 4; }
                    else { key = "Escape"; }
                } else { key = "Escape"; }
                proof { assert(csi_step(b, i as int) == (key@, next as int)); }
                cmd = key_command_exec(pane_id, key);
            } else if x == 0x0d || x == 0x0a {
                cmd = key_command_exec(pane_id, "Enter");
            } else if x == 0x09 {
                cmd = key_command_exec(pane_id, "Tab");
            } else if x == 0x08 || x == 0x7f {
                cmd = key_command_exec(pane_id, "BSpace");
            } else if x == 0x1b {
                cmd = key_command_exec(pane_id, "Escape");
            } else if 0x01 <= x && x <= 0x1a {
                let mut kv: Vec<char> = Vec::new();
                kv.push('C');
                kv.push('-');
                kv.push(((0x61 + x - 1) as u8) as char);
                let key = string_from_chars(&kv);
                proof { assert(key@ =~= seq!['C', '-', ((0x61 + x - 1) as u8) as char]); }
                cmd = key_command_exec(pane_id, key.as_str());
            } else {
                proof { lemma_continuation_end(b, i + 1); }
                let mut j = i + 1;
                while j < n && 0x80 <= bytes[j] && bytes[j] < 0xc0
                    invariant
                        i < j <= n,
                        n == bytes@.len(),
                        continuation_end(bytes@, (i + 1) as int) == continuation_end(bytes@, j as int),
                    decreases n - j,
                {
                    j = j + 1;
                }
                next = j;
                cmd = literal_command_exec(pane_id, bytes, i, j);
            }
            proof {
                assert(special_step(pane_id@, b, i as int) == (cmd@, next as int));
            }
            commands.push(cmd);
            proof {
                assert(string_texts(commands@) =~= before.push(cmd@));
                assert(send_keys_from(pane_id@, b, i as int) == seq![cmd@] + send_keys_from(pane_id@, b, next as int));
                assert(before.push(cmd@) + send_keys_from(pane_id@, b, next as int) =~= before + (seq![cmd@] + send_keys_from(pane_id@, b, next as int)));
            }
            i = next;
        }
    }
    proof { assert(string_texts(commands@) + Seq::<Seq<char>>::empty() =~= string_texts(commands@)); }
    commands
}

proof fn lemma_csi_first(pane: Seq<char>, b: Seq<u8>)
    requires
        b.len() >= 3,
        b[0] == 0x1bu8,
        b[1] == 0x5bu8,
        0 < csi_step(b, 0).1 <= b.len(),
    ensures
        send_keys_from(pane, b, 0) == seq![key_command(pane, csi_step(b, 0).0)] + send_keys_from(pane, b, csi_step(b, 0).1),
{
}

/// The cursor and editing keys that a terminal sends as `ESC [` sequences become the
/// tmux key presses of the same keys, whatever follows: `ESC [ A`, `B`, `C`, `D` are
/// Up, Down, Right, Left; `ESC [ H` and `ESC [ F` are Home and End; `ESC [ 2 ~`,
/// `3 ~`, `5 ~`, `6 ~` are Insert (IC), Delete (DC), Page Up (PPage) and Page Down
/// (NPage). The input after the sequence is handled on its own.
pub proof fn law_cursor_keys(pane: Seq<char>, rest: Seq<u8>)
    ensures
        send_keys_from(pane, seq![0x1bu8, 0x5bu8, 0x41u8] + rest, 0)
            == seq!["send-keys -t "@ + pane + " "@ + "Up"@] + send_keys_from(pane, seq![0x1bu8, 0x5bu8, 0x41u8] + rest, 3),
        send_keys_from(pane, seq![0x1bu8, 0x5bu8, 0x42u8] + rest, 0)
            == seq!["send-keys -t "@ + pane + " "@ + "Down"@] + send_keys_from(pane, seq![0x1bu8, 0x5bu8, 0x42u8] + rest, 3),
        send_keys_from(pane, seq![0x1bu8, 0x5bu8, 0x43u8] + rest, 0)
            == seq!["send-keys -t "@ + pane + " "@ + "Right"@] + send_keys_from(pane, seq![0x1bu8, 0x5bu8, 0x43u8] + rest, 3),
        send_keys_from(pane, seq![0x1bu8, 0x5bu8, 0x44u8] + rest, 0)
            == seq!["send-keys -t "@ + pane + " "@ + "Left"@] + send_keys_from(pane, seq![0x1bu8, 0x5bu8, 0x44u8] + rest, 3),
        send_keys_from(pane, seq![0x1bu8, 0x5bu8, 0x48u8] + rest, 0)
            == seq!["send-keys -t "@ + pane + " "@ + "Home"@] + send_keys_from(pane, seq![0x1bu8, 0x5bu8, 0x48u8] + rest, 3),
        send_keys_from(pane, seq![0x1bu8, 0x5bu8, 0x46u8] + rest, 0)
            == seq!["send-keys -t "@ + pane + " "@ + "End"@] + send_keys_from(pane, seq![0x1bu8, 0x5bu8, 0x46u8] + rest, 3),
        send_keys_from(pane, seq![0x1bu8, 0x5bu8, 0x32u8, 0x7eu8] + rest, 0)
            == seq!["send-keys -t "@ + pane + " "@ + "IC"@] + send_keys_from(pane, seq![0x1bu8, 0x5bu8, 0x32u8, 0x7eu8] + rest, 4),
        send_keys_from(pane, seq![0x1bu8, 0x5bu8, 0x33u8, 0x7eu8] + rest, 0)
            == seq!["send-keys -t "@ + pane + " "@ + "DC"@] + send_keys_from(pane, seq![0x1bu8, 0x5bu8, 0x33u8, 0x7eu8] + rest, 4),
        send_keys_from(pane, seq![0x1bu8, 0x5bu8, 0x35u8, 0x7eu8] + rest, 0)
            == seq!["send-keys -t "@ + pane + " "@ + "PPage"@] + send_keys_from(pane, seq![0x1bu8, 0x5bu8, 0x35u8, 0x7eu8] + rest, 4),
        send_keys_from(pane, seq![0x1bu8, 0x5bu8, 0x36u8, 0x7eu8] + rest, 0)
            == seq!["send-keys -t "@ + pane + " "@ + "NPage"@] + send_keys_from(pane, seq![0x1bu8, 0x5bu8, 0x36u8, 0x7eu8] + rest, 4),
{
    {
        let b = seq![0x1bu8, 0x5bu8, 0x41u8] + rest;
        assert(b[0] == 0x1bu8 && b[1] == 0x5bu8 && b[2] == 0x41u8);
        lemma_csi_first(pane, b);
    }
    {
        let b = seq![0x1bu8, 0x5bu8, 0x42u8] + rest;
        assert(b[0] == 0x1bu8 && b[1] == 0x5bu8 && b[2] == 0x42u8);
        lemma_csi_first(pane, b);
    }
    {
        let b = seq![0x1bu8, 0x5bu8, 0x43u8] + rest;
        assert(b[0] == 0x1bu8 && b[1] == 0x5bu8 && b[2] == 0x43u8);
        lemma_csi_first(pane, b);
    }
    {
        let b = seq![0x1bu8, 0x5bu8, 0x44u8] + rest;
        assert(b[0] == 0x1bu8 && b[1] == 0x5bu8 && b[2] == 0x44u8);
        lemma_csi_first(pane, b);
    }
    {
        let b = seq![0x1bu8, 0x5bu8, 0x48u8] + rest;
        assert(b[0] == 0x1bu8 && b[1] == 0x5bu8 && b[2] == 0x48u8);
        lemma_csi_first(pane, b);
    }
    {
        let b = seq![0x1bu8, 0x5bu8, 0x46u8] + rest;
        assert(b[0] == 0x1bu8 && b[1] == 0x5bu8 && b[2] == 0x46u8);
        lemma_csi_first(pane, b);
    }
    {
        let b = seq![0x1bu8, 0x5bu8, 0x32u8, 0x7eu8] + rest;
        assert(b[0] == 0x1bu8 && b[1] == 0x5bu8 && b[2] == 0x32u8 && b[3] == 0x7eu8);
        lemma_csi_first(pane, b);
    }
    {
        let b = seq![0x1bu8, 0x5bu8, 0x33u8, 0x7eu8] + rest;
        assert(b[0] == 0x1bu8 && b[1] == 0x5bu8 && b[2] == 0x33u8 && b[3] == 0x7eu8);
        lemma_csi_first(pane, b);
    }
    {
        let b = seq![0x1bu8, 0x5bu8, 0x35u8, 0x7eu8] + rest;
        assert(b[0] == 0x1bu8 && b[1] == 0x5bu8 && b[2] == 0x35u8 && b[3] == 0x7eu8);
        lemma_csi_first(pane, b);
    }
    {
        let b = seq![0x1bu8, 0x5bu8, 0x36u8, 0x7eu8] + rest;
        assert(b[0] == 0x1bu8 && b[1] == 0x5bu8 && b[2] == 0x36u8 && b[3] == 0x7eu8);
        lemma_csi_first(pane, b);
    }
}

/// Control bytes become the key presses they stand for, whatever follows: CR and LF
/// press Enter, HT presses Tab, BS and DEL press BSpace, and any other byte from 1 to 26
/// presses Ctrl with the letter it stands for (1 is `C-a`, 26 is `C-z`).
pub proof fn law_control_bytes(pane: Seq<char>, x: u8, rest: Seq<u8>)
    requires
        1 <= x <= 0x1a || x == 0x7f,
    ensures
        ({
            let b = seq![x] + rest;
            let key: Seq<char> = if x == 0x0d || x == 0x0a { "Enter"@ }
                else if x == 0x09 { "Tab"@ }
                else if x == 0x08 || x == 0x7f { "BSpace"@ }
                else { seq!['C', '-', ((0x60 + x) as u8) as char] };
            send_keys_from(pane, b, 0) == seq!["send-keys -t "@ + pane + " "@ + key] + send_keys_from(pane, b, 1)
        }),
{
    let b = seq![x] + rest;
    assert(b[0] == x);
    assert(!is_plain_byte(x));
}

} // verus!
