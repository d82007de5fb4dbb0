//! Shell integration through OSC 133 escape sequences.
//!
//! Terminal output carries shell lifecycle markers:
//! `A` prompt start, `B` prompt end, `C` command about to run,
//! `D` command finished (with an optional exit code).
use vstd::prelude::*;
use vstd::utf8::*;
use crate::text::{chars_of, has_prefix, trim, trim_start, trim_end, trim_chars, parse_u8_spec, parse_u8_chars, slice_chars,
    decimal, digit_char, digits_value, all_digits};

verus! {

/// Shell phase derived from OSC 133 markers.
#[derive(Debug, Clone, Copy, PartialEq, Eq, Structural)]
pub enum ShellPhase {
    Unknown,
    Prompt,
    Input,
    Running,
    Output,
}

impl Default for ShellPhase {
    fn default() -> (r: Self)
        ensures
            r == ShellPhase::Unknown,
    {
        ShellPhase::Unknown
    }
}

/// Maximum number of markers kept (oldest are evicted first).
pub const MAX_MARKERS: usize = 100;

/// Marker kind of an OSC 133 sequence.
#[derive(Debug, Clone, Copy, PartialEq, Eq, Structural)]
pub enum MarkerKind {
    /// `133;A`: prompt start.
    PromptStart,
    /// `133;B`: prompt end, input starts.
    PromptEnd,
    /// `133;C`: command about to run.
    PreExec,
    /// `133;D`: command finished.
    PostExec,
}

/// A shell marker at a terminal position; `timestamp` is in milliseconds of the clock.
#[derive(Debug, Clone, Copy)]
pub struct ShellMarker {
    pub kind: MarkerKind,
    pub line: usize,
    pub column: usize,
    pub timestamp: u64,
    /// Exit code of a `PostExec` marker, when the sequence carries one.
    pub exit_code: Option<u8>,
}

/// Result of parsing one OSC 133 sequence.
#[derive(Debug, Clone, Copy, PartialEq, Eq, Structural)]
pub struct ParsedMarker {
    pub kind: MarkerKind,
    pub exit_code: Option<u8>,
}

/// Shell phase together with the last `PostExec` exit code.
#[derive(Debug, Clone, Copy)]
pub struct ShellPhaseInfo {
    pub phase: ShellPhase,
    pub last_post_exec_exit_code: Option<u8>,
}

/// Phase that a marker of this kind leads to.
pub open spec fn phase_after(kind: MarkerKind) -> ShellPhase {
    match kind {
        MarkerKind::PromptStart => ShellPhase::Prompt,
        MarkerKind::PromptEnd => ShellPhase::Input,
        MarkerKind::PreExec => ShellPhase::Running,
        MarkerKind::PostExec => ShellPhase::Output,
    }
}

/// The last `MAX_MARKERS` elements of `s` (all of them if there are fewer).
pub open spec fn keep_last(s: Seq<ShellMarker>) -> Seq<ShellMarker> {
    if s.len() > MAX_MARKERS { s.skip(s.len() - MAX_MARKERS) } else { s }
}

/// Shell state tracked from OSC 133 markers. Timestamps are milliseconds of the clock.
#[derive(Debug)]
pub struct ShellState {
    pub phase: ShellPhase,
    pub prompt_line: Option<usize>,
    pub last_command_start: Option<u64>,
    /// Exit code from the last `PostExec` marker.
    pub last_post_exec_exit_code: Option<u8>,
    /// Markers in the order received, oldest first, at most `MAX_MARKERS` of them.
    pub markers: Vec<ShellMarker>,
}

impl ShellState {
    /// Fresh state: unknown phase, no markers.
    pub fn new() -> (r: Self)
        ensures
            r.phase == ShellPhase::Unknown,
            r.prompt_line is None,
            r.last_command_start is None,
            r.last_post_exec_exit_code is None,
            r.markers@.len() == 0,
    {
        ShellState {
            phase: ShellPhase::Unknown,
            prompt_line: None,
            last_command_start: None,
            last_post_exec_exit_code: None,
            markers: Vec::new(),
        }
    }

    /// Where a click at column `col` of the prompt puts the cursor: the prompt line and
    /// that column, once a prompt start has been seen.
    pub fn click_to_prompt(&self, col: usize) -> (r: Option<(usize, usize)>)
        ensures
            r == (match self.prompt_line { Some(line) => Some((line, col)), None => None }),
    {
        match self.prompt_line {
            Some(line) => Some((line, col)),
            None => None,
        }
    }

    /// Records a marker: moves to the phase it leads to, notes the prompt line (A), the
    /// command start time (C) or the exit code (D), and keeps the newest `MAX_MARKERS` markers.
    pub fn add_marker(&mut self, marker: ShellMarker)
        ensures
            final(self).phase == phase_after(marker.kind),
            final(self).prompt_line == (if marker.kind == MarkerKind::PromptStart { Some(marker.line) } else { old(self).prompt_line }),
            final(self).last_command_start == (if marker.kind == MarkerKind::PreExec { Some(marker.timestamp) } else { old(self).last_command_start }),
            final(self).last_post_exec_exit_code == (if marker.kind == MarkerKind::PostExec { marker.exit_code } else { old(self).last_post_exec_exit_code }),
            final(self).markers@ == keep_last(old(self).markers@.push(marker)),
    {
        match marker.kind {
            MarkerKind::PromptStart => {
                self.phase = ShellPhase::Prompt;
                self.prompt_line = Some(marker.line);
            },
            MarkerKind::PromptEnd => {
                self.phase = ShellPhase::Input;
            },
            MarkerKind::PreExec => {
                self.phase = ShellPhase::Running;
                self.last_command_start = Some(marker.timestamp);
            },
            MarkerKind::PostExec => {
                self.phase = ShellPhase::Output;
                self.last_post_exec_exit_code = marker.exit_code;
            },
        }
        self.markers.push(marker);
        let ghost all = self.markers@;
        if self.markers.len() > MAX_MARKERS {
            let drop = self.markers.len() - MAX_MARKERS;
            let mut kept: Vec<ShellMarker> = Vec::new();
            let mut i = drop;
            while i < self.markers.len()
                invariant
                    drop <= i <= self.markers.len(),
                    self.markers@ == all,
                    kept@ == all.subrange(drop as int, i as int),
                decreases self.markers.len() - i,
            {
                kept.push(self.markers[i]);
                proof { assert(kept@ =~= all.subrange(drop as int, i + 1)); }
                i = i + 1;
            }
            self.markers = kept;
            proof { assert(self.markers@ =~= all.skip(drop as int)); }
        }
    }
}

impl ShellMarker {
    /// Marker for a parsed sequence at the given position, stamped with the current time.
    pub fn from_parsed(parsed: ParsedMarker, line: usize, column: usize) -> (r: Self)
        ensures
            r.kind == parsed.kind,
            r.exit_code == parsed.exit_code,
            r.line == line,
            r.column == column,
    {
        let now = crate::clock::now_millis();
        ShellMarker { kind: parsed.kind, line, column, timestamp: now, exit_code: parsed.exit_code }
    }
}

// Bytes that structure OSC sequences.
pub const ESC: u8 = 0x1b;
pub const OSC_START: u8 = 0x5d;
pub const ST_SECOND: u8 = 0x5c;
pub const BEL: u8 = 0x07;

/// State of the OSC 133 byte parser.
#[derive(Debug, Clone, Copy, PartialEq, Eq, Structural)]
pub enum ParserState {
    /// Looking for ESC.
    Normal,
    /// Saw ESC, expecting `]`.
    AfterEsc,
    /// Inside an OSC, collecting its data.
    InOsc,
    /// Saw ESC inside an OSC: `\` ends it (ST), anything else is data.
    InOscAfterEsc,
}

/// Kind named by the first character after `133;`.
pub open spec fn kind_of_char(c: char) -> Option<MarkerKind> {
    if c == 'A' {
        Some(MarkerKind::PromptStart)
    } else if c == 'B' {
        Some(MarkerKind::PromptEnd)
    } else if c == 'C' {
        Some(MarkerKind::PreExec)
    } else if c == 'D' {
        Some(MarkerKind::PostExec)
    } else {
        None
    }
}

/// The `133;` prefix.
pub open spec fn osc133_prefix() -> Seq<char> {
    seq!['1', '3', '3', ';']
}

/// The OSC text (already decoded) as an OSC 133 marker: after trimming it must start
/// with `133;`; the first `;`-separated field names the kind by its first character;
/// for `D` the second field, trimmed, is the exit code if it parses as a byte.
pub open spec fn parse_osc133_chars(s: Seq<char>) -> Option<ParsedMarker> {
    let t = trim(s);
    if !has_prefix(t, osc133_prefix()) {
        None
    } else {
        let rest = t.skip(4);
        let first_end = match crate::agent_status::find_char_from(rest, ';', 0) { Some(i) => i, None => rest.len() as int };
        let field = rest.subrange(0, first_end);
        if field.len() == 0 {
            None
        } else {
            match kind_of_char(field[0]) {
                None => None,
                Some(kind) => {
                    let code = if kind == MarkerKind::PostExec && first_end < rest.len() {
                        let after = rest.skip(first_end + 1);
                        let second_end = match crate::agent_status::find_char_from(after, ';', 0) { Some(i) => i, None => after.len() as int };
                        parse_u8_spec(trim(after.subrange(0, second_end)))
                    } else {
                        None
                    };
                    Some(ParsedMarker { kind, exit_code: code })
                },
            }
        }
    }
}

/// The OSC data bytes as a marker: `None` unless they are valid UTF-8 whose text parses.
pub open spec fn parse_osc133_bytes(buf: Seq<u8>) -> Option<ParsedMarker> {
    if valid_utf8(buf) { parse_osc133_chars(decode_utf8(buf)) } else { None }
}

/// One byte through the parser: next state, next buffer, and the marker it completes.
pub open spec fn osc_step(st: ParserState, buf: Seq<u8>, b: u8) -> (ParserState, Seq<u8>, Option<ParsedMarker>) {
    match st {
        ParserState::Normal => (if b == ESC { ParserState::AfterEsc } else { ParserState::Normal }, buf, None),
        ParserState::AfterEsc => if b == OSC_START {
            (ParserState::InOsc, Seq::empty(), None)
        } else {
            (ParserState::Normal, buf, None)
        },
        ParserState::InOsc => if b == BEL {
            (ParserState::Normal, Seq::empty(), parse_osc133_bytes(buf))
        } else if b == ESC {
            (ParserState::InOscAfterEsc, buf, None)
        } else {
            (ParserState::InOsc, buf.push(b), None)
        },
        ParserState::InOscAfterEsc => if b == ST_SECOND {
            (ParserState::Normal, Seq::empty(), parse_osc133_bytes(buf))
        } else {
            (ParserState::InOsc, buf.push(ESC).push(b), None)
        },
    }
}

/// A byte sequence through the parser: final state, final buffer, markers in order.
pub open spec fn osc_feed(st: ParserState, buf: Seq<u8>, bytes: Seq<u8>) -> (ParserState, Seq<u8>, Seq<ParsedMarker>)
    decreases bytes.len(),
{
    if bytes.len() == 0 {
        (st, buf, Seq::empty())
    } else {
        let (s1, b1, out1) = osc_feed(st, buf, bytes.drop_last());
        let (s2, b2, m) = osc_step(s1, b1, bytes.last());
        (s2, b2, match m { Some(x) => out1.push(x), None => out1 })
    }
}

/// Incremental parser of OSC 133 sequences; both terminators, ST (`ESC \`) and BEL,
/// are accepted, and malformed sequences are dropped.
#[derive(Debug)]
pub struct Osc133Parser {
    state: ParserState,
    buf: Vec<u8>,
}

impl View for Osc133Parser {
    type V = (ParserState, Seq<u8>);

    closed spec fn view(&self) -> (ParserState, Seq<u8>) {
        (self.state, self.buf@)
    }
}

/// Decodes UTF-8.
/// Trusted: calls `std::str::from_utf8`, which succeeds exactly on valid UTF-8 and then
/// returns the text whose encoding is the input.
#[verifier::external_body]
fn utf8_str(b: &[u8]) -> (r: Option<&str>)
    ensures
        r is Some <==> valid_utf8(b@),
        r matches Some(s) ==> encode_utf8(s@) == b@,
{
    std::str::from_utf8(b).ok()
}

/// First index of `;` at or after `from`, or the length.
fn field_end(v: &Vec<char>, from: usize) -> (r: usize)
    requires
        from <= v.len(),
    ensures
        r == (match crate::agent_status::find_char_from(v@, ';', from as int) { Some(i) => i, None => v@.len() as int }),
        from <= r <= v.len(),
    decreases v.len() - from,
{
    if from >= v.len() {
        v.len()
    } else if v[from] == ';' {
        from
    } else {
        field_end(v, from + 1)
    }
}

/// Searching a suffix finds what searching the whole sequence from the same place finds.
pub(crate) proof fn lemma_find_shift(s: Seq<char>, c: char, k: int, from: int)
    requires
        0 <= k <= s.len(),
        0 <= from,
    ensures
        crate::agent_status::find_char_from(s.skip(k), c, from) == (match crate::agent_status::find_char_from(s, c, from + k) {
            Some(i) => Some(i - k),
            None => None,
        }),
    decreases s.len() - k - from,
{
    if from < s.len() - k {
        assert(s.skip(k)[from] == s[from + k]);
        lemma_find_shift(s, c, k, from + 1);
    }
}

/// Parses decoded OSC text as an OSC 133 marker.
pub fn parse_osc133_text(s: &str) -> (r: Option<ParsedMarker>)
    ensures
        r == parse_osc133_chars(s@),
{
    let raw = chars_of(s);
    let t = trim_chars(&raw);
    let mut p: Vec<char> = Vec::new();
    p.push('1');
    p.push('3');
    p.push('3');
    p.push(';');
    assert(p@ =~= osc133_prefix());
    if !crate::text::starts_with_chars(&t, &p) {
        return None;
    }
    let ghost rest = t@.skip(4);
    let e1 = field_end(&t, 4);
    proof { lemma_find_shift(t@, ';', 4, 0); }
    if e1 == 4 {
        return None;
    }
    let kind = match t[4] {
        'A' => MarkerKind::PromptStart,
        'B' => MarkerKind::PromptEnd,
        'C' => MarkerKind::PreExec,
        'D' => MarkerKind::PostExec,
        _ => { return None; },
    };
    assert(rest.subrange(0, e1 - 4)[0] == t@[4]);
    let code = if kind == MarkerKind::PostExec && e1 < t.len() {
        let e2 = field_end(&t, e1 + 1);
        proof {
            lemma_find_shift(t@, ';', e1 + 1, 0);
            assert(rest.skip(e1 - 4 + 1) =~= t@.skip(e1 + 1));
            assert(t@.skip(e1 + 1).subrange(0, e2 - (e1 + 1)) =~= t@.subrange(e1 + 1, e2 as int));
        }
        let field = slice_chars(&t, e1 + 1, e2);
        let tf = trim_chars(&field);
        parse_u8_chars(&tf)
    } else {
        None
    };
    Some(ParsedMarker { kind, exit_code: code })
}

impl Osc133Parser {
    /// Parser in its initial state.
    pub fn new() -> (r: Self)
        ensures
            r@ == (ParserState::Normal, Seq::<u8>::empty()),
    {
        Osc133Parser { state: ParserState::Normal, buf: Vec::new() }
    }

    /// Parses the collected OSC data.
    fn parse_buffer(&self) -> (r: Option<ParsedMarker>)
        ensures
            r == parse_osc133_bytes(self.buf@),
    {
        match utf8_str(self.buf.as_slice()) {
            None => None,
            Some(s) => {
                proof { vstd::utf8::decode_utf8_encode_utf8(self.buf@); encode_utf8_decode_utf8(s@); }
                parse_osc133_text(s)
            },
        }
    }

    /// One byte through the parser.
    fn advance(&mut self, b: u8) -> (r: Option<ParsedMarker>)
        ensures
            (final(self)@.0, final(self)@.1, r) == osc_step(old(self)@.0, old(self)@.1, b),
    {
        match self.state {
            ParserState::Normal => {
                if b == ESC {
                    self.state = ParserState::AfterEsc;
                }
                None
            },
            ParserState::AfterEsc => {
                if b == OSC_START {
                    self.state = ParserState::InOsc;
                    self.buf.clear();
                } else {
                    self.state = ParserState::Normal;
                }
                None
            },
            ParserState::InOsc => {
                if b == BEL {
                    let result = self.parse_buffer();
                    self.state = ParserState::Normal;
                    self.buf.clear();
                    return result;
                }
                if b == ESC {
                    self.state = ParserState::InOscAfterEsc;
                    return None;
                }
                self.buf.push(b);
                None
            },
            ParserState::InOscAfterEsc => {
                if b == ST_SECOND {
                    let result = self.parse_buffer();
                    self.state = ParserState::Normal;
                    self.buf.clear();
                    return result;
                }
                self.buf.push(ESC);
                self.buf.push(b);
                self.state = ParserState::InOsc;
                None
            },
        }
    }

    /// Feeds bytes; returns the markers that they complete, in order.
    pub fn feed(&mut self, bytes: &[u8]) -> (r: Vec<ParsedMarker>)
        ensures
            (final(self)@.0, final(self)@.1, r@) == osc_feed(old(self)@.0, old(self)@.1, bytes@),
    {
        let mut results: Vec<ParsedMarker> = Vec::new();
        let mut i: usize = 0;
        while i < bytes.len()
            invariant
                i <= bytes.len(),
                (self@.0, self@.1, results@) == osc_feed(old(self)@.0, old(self)@.1, bytes@.take(i as int)),
            decreases bytes.len() - i,
        {
            proof { assert(bytes@.take(i + 1).drop_last() =~= bytes@.take(i as int)); }
            if let Some(m) = self.advance(bytes[i]) {
                results.push(m);
            }
            i = i + 1;
        }
        proof { assert(bytes@.take(bytes@.len() as int) =~= bytes@); }
        results
    }

    /// Back to the initial state (e.g. after a break in the stream).
    pub fn reset(&mut self)
        ensures
            final(self)@ == (ParserState::Normal, Seq::<u8>::empty()),
    {
        self.state = ParserState::Normal;
        self.buf.clear();
    }
}

impl Default for Osc133Parser {
    fn default() -> (r: Self)
        ensures
            r@ == (ParserState::Normal, Seq::<u8>::empty()),
    {
        Osc133Parser::new()
    }
}

/// Feeding bytes in two pieces gives what feeding them at once gives: the same final
/// parser state and the markers of both pieces in order.
pub proof fn law_feed_concat(st: ParserState, buf: Seq<u8>, a: Seq<u8>, b: Seq<u8>)
    ensures
        ({
            let (s1, b1, o1) = osc_feed(st, buf, a);
            let (s2, b2, o2) = osc_feed(s1, b1, b);
            osc_feed(st, buf, a + b) == (s2, b2, o1 + o2)
        }),
    decreases b.len(),
{
    if b.len() == 0 {
        assert(a + b =~= a);
        let (s1, b1, o1) = osc_feed(st, buf, a);
        assert(o1 + Seq::<ParsedMarker>::empty() =~= o1);
    } else {
        law_feed_concat(st, buf, a, b.drop_last());
        assert((a + b).drop_last() =~= a + b.drop_last());
        assert((a + b).last() == b.last());
        let (s1, b1, o1) = osc_feed(st, buf, a);
        let (s2, b2, o2) = osc_feed(s1, b1, b.drop_last());
        let (s3, b3, m) = osc_step(s2, b2, b.last());
        match m {
            Some(x) => { assert((o1 + o2).push(x) =~= o1 + o2.push(x)); },
            None => {},
        }
    }
}

/// Bytes without ESC leave a parser in its normal state there and complete no marker.
pub proof fn law_plain_text_no_markers(bytes: Seq<u8>)
    requires
        forall|i: int| 0 <= i < bytes.len() ==> bytes[i] != ESC,
    ensures
        osc_feed(ParserState::Normal, Seq::empty(), bytes) == (ParserState::Normal, Seq::<u8>::empty(), Seq::<ParsedMarker>::empty()),
    decreases bytes.len(),
{
    if bytes.len() > 0 {
        law_plain_text_no_markers(bytes.drop_last());
        assert(bytes.last() == bytes[bytes.len() - 1]);
    }
}

/// Without a terminator (BEL, or the `\` of `ESC \`), bytes complete no marker,
/// whatever state the parser was in: a truncated sequence or plain output yields none.
pub proof fn law_no_terminator_no_marker(st: ParserState, buf: Seq<u8>, bytes: Seq<u8>)
    requires
        forall|i: int| 0 <= i < bytes.len() ==> bytes[i] != BEL && bytes[i] != ST_SECOND,
    ensures
        osc_feed(st, buf, bytes).2.len() == 0,
    decreases bytes.len(),
{
    if bytes.len() > 0 {
        law_no_terminator_no_marker(st, buf, bytes.drop_last());
        assert(bytes.last() == bytes[bytes.len() - 1]);
    }
}

proof fn lemma_osc_data(buf: Seq<u8>, data: Seq<u8>)
    requires
        forall|i: int| 0 <= i < data.len() ==> data[i] != BEL && data[i] != ESC,
    ensures
        osc_feed(ParserState::InOsc, buf, data) == (ParserState::InOsc, buf + data, Seq::<ParsedMarker>::empty()),
    decreases data.len(),
{
    if data.len() > 0 {
        lemma_osc_data(buf, data.drop_last());
        assert(data.last() == data[data.len() - 1]);
        assert(buf + data.drop_last() + seq![data.last()] =~= buf + data);
    } else {
        assert(buf + data =~= buf);
    }
}

/// A complete OSC sequence closed by BEL, met in the normal state, yields exactly the
/// marker its data parses to, and nothing when the data is not an OSC 133 marker (a
/// window title, for one); the parser is back in its normal state with an empty buffer.
pub proof fn law_complete_osc(data: Seq<u8>)
    requires
        forall|i: int| 0 <= i < data.len() ==> data[i] != BEL && data[i] != ESC,
    ensures
        osc_feed(ParserState::Normal, Seq::empty(), seq![ESC, OSC_START] + data + seq![BEL])
            == (ParserState::Normal, Seq::<u8>::empty(), match parse_osc133_bytes(data) {
                Some(m) => seq![m],
                None => Seq::<ParsedMarker>::empty(),
            }),
{
    let head = seq![ESC, OSC_START];
    law_feed_concat(ParserState::Normal, Seq::empty(), head + data, seq![BEL]);
    law_feed_concat(ParserState::Normal, Seq::empty(), head, data);
    assert(head.drop_last() =~= seq![ESC]);
    assert(head.last() == OSC_START);
    assert(seq![ESC].drop_last() =~= Seq::<u8>::empty());
    assert(seq![ESC].last() == ESC);
    assert(osc_feed(ParserState::Normal, Seq::<u8>::empty(), Seq::<u8>::empty())
        == (ParserState::Normal, Seq::<u8>::empty(), Seq::<ParsedMarker>::empty()));
    let f0 = osc_feed(ParserState::Normal, Seq::empty(), seq![ESC]);
    assert(f0 == (ParserState::AfterEsc, Seq::<u8>::empty(), Seq::<ParsedMarker>::empty()));
    let f1 = osc_feed(ParserState::Normal, Seq::empty(), head);
    assert(f1 == (ParserState::InOsc, Seq::<u8>::empty(), Seq::<ParsedMarker>::empty()));
    lemma_osc_data(Seq::empty(), data);
    assert(Seq::<u8>::empty() + data =~= data);
    let f2 = osc_feed(ParserState::InOsc, Seq::empty(), data);
    assert(f2 == (ParserState::InOsc, data, Seq::<ParsedMarker>::empty()));
    assert(Seq::<ParsedMarker>::empty() + Seq::<ParsedMarker>::empty() =~= Seq::<ParsedMarker>::empty());
    let f12 = osc_feed(ParserState::Normal, Seq::empty(), head + data);
    assert(f12 == (ParserState::InOsc, data, Seq::<ParsedMarker>::empty()));
    assert(seq![BEL].drop_last() =~= Seq::<u8>::empty());
    assert(seq![BEL].last() == BEL);
    assert(osc_feed(ParserState::InOsc, data, Seq::<u8>::empty()) == (ParserState::InOsc, data, Seq::<ParsedMarker>::empty()));
    let out = match parse_osc133_bytes(data) { Some(m) => seq![m], None => Seq::<ParsedMarker>::empty() };
    assert(Seq::<ParsedMarker>::empty() + out =~= out);
}

/// Input that never holds `ESC ]`, the start of an OSC, fed in the normal state yields no
/// marker: garbage, plain output and other escape sequences complete nothing, and the
/// parser stays out of any OSC.
pub proof fn law_no_osc_start_no_marker(bytes: Seq<u8>)
    requires
        forall|i: int| 0 <= i < bytes.len() - 1 ==> !(#[trigger] bytes[i] == ESC && bytes[i + 1] == OSC_START),
    ensures
        ({
            let (st, buf, out) = osc_feed(ParserState::Normal, Seq::empty(), bytes);
            &&& out.len() == 0
            &&& buf.len() == 0
            &&& (st == ParserState::Normal || (st == ParserState::AfterEsc && bytes.len() > 0 && bytes.last() == ESC))
        }),
    decreases bytes.len(),
{
    if bytes.len() > 0 {
        let p = bytes.drop_last();
        assert forall|i: int| 0 <= i < p.len() - 1 implies !(#[trigger] p[i] == ESC && p[i + 1] == OSC_START) by {
            assert(p[i] == bytes[i]);
            assert(p[i + 1] == bytes[i + 1]);
        }
        law_no_osc_start_no_marker(p);
        if p.len() > 0 {
            assert(p.last() == bytes[bytes.len() - 2]);
            assert(bytes.last() == bytes[bytes.len() - 1]);
        }
    }
}

proof fn lemma_decimal_digits(n: nat)
    ensures
        decimal(n).len() > 0,
        all_digits(decimal(n)),
        digits_value(decimal(n)) == n,
    decreases n,
{
    if n >= 10 {
        lemma_decimal_digits(n / 10);
        let d = decimal(n / 10);
        let c = digit_char((n % 10) as int);
        assert(decimal(n) == d.push(c));
        assert(d.push(c).drop_last() =~= d);
        assert(d.push(c).last() == c);
        assert forall|i: int| 0 <= i < d.push(c).len() implies '0' <= #[trigger] d.push(c)[i] && d.push(c)[i] <= '9' by {
            if i < d.len() { assert(d.push(c)[i] == d[i]); }
        }
        assert(c as int - '0' as int == n % 10);
        assert(digits_value(d.push(c)) == digits_value(d) * 10 + (c as int - '0' as int));
        assert((n / 10) * 10 + n % 10 == n) by (nonlinear_arith);
    } else {
        let c = digit_char(n as int);
        assert(c as int - '0' as int == n);
        assert(seq![c].drop_last() =~= Seq::<char>::empty());
        assert(digits_value(Seq::<char>::empty()) == 0);
        assert(digits_value(seq![c]) == digits_value(seq![c].drop_last()) * 10 + (c as int - '0' as int));
    }
}

proof fn lemma_no_semicolon(s: Seq<char>, k: int)
    requires
        0 <= k,
        all_digits(s),
    ensures
        crate::agent_status::find_char_from(s, ';', k) is None,
    decreases s.len() - k,
{
    if k < s.len() {
        assert('0' <= s[k] && s[k] <= '9');
        lemma_no_semicolon(s, k + 1);
    }
}

proof fn lemma_digits_trimmed(s: Seq<char>)
    requires
        s.len() > 0,
        all_digits(s),
    ensures
        trim(s) == s,
{
    assert('0' <= s[0] && s[0] <= '9');
    assert('0' <= s[s.len() - 1] && s[s.len() - 1] <= '9');
    assert(trim_start(s) == s);
    assert(trim_end(s) == s);
}

/// A command-finished marker (`133;D`) carrying a decimal exit code from 0 to 255 is
/// read with exactly that exit code, however many digits it has.
pub proof fn law_exit_code_read(n: u8)
    ensures
        parse_osc133_chars("133;D;"@ + decimal(n as nat))
            == Some(ParsedMarker { kind: MarkerKind::PostExec, exit_code: Some(n) }),
{
    let d = decimal(n as nat);
    lemma_decimal_digits(n as nat);
    reveal_strlit("133;D;");
    let s = "133;D;"@ + d;
    assert(s[0] == '1');
    assert(s[s.len() - 1] == d[d.len() - 1]);
    assert('0' <= d[d.len() - 1] && d[d.len() - 1] <= '9');
    assert(trim_start(s) == s);
    assert(trim_end(s) == s);
    assert(trim(s) == s);
    assert(s.subrange(0, 4) =~= osc133_prefix());
    let rest = s.skip(4);
    assert(rest =~= seq!['D', ';'] + d);
    assert(rest[0] == 'D');
    assert(rest[1] == ';');
    assert(crate::agent_status::find_char_from(rest, ';', 1) == Some(1int));
    assert(crate::agent_status::find_char_from(rest, ';', 0) == Some(1int));
    assert(rest.subrange(0, 1) =~= seq!['D']);
    let after = rest.skip(2);
    assert(after =~= d);
    lemma_no_semicolon(d, 0);
    assert(after.subrange(0, after.len() as int) =~= d);
    lemma_digits_trimmed(d);
    assert(d[0] != '+');
}

proof fn lemma_ascii_encode(s: Seq<char>)
    requires
        forall|i: int| 0 <= i < s.len() ==> 0x20 <= #[trigger] (s[i] as u32) && (s[i] as u32) < 0x7f,
    ensures
        encode_utf8(s).len() == s.len(),
        forall|i: int| 0 <= i < s.len() ==> #[trigger] encode_utf8(s)[i] == s[i] as u32 as u8,
        forall|i: int| 0 <= i < s.len() ==> 0x20 <= #[trigger] encode_utf8(s)[i] && encode_utf8(s)[i] < 0x7f,
    decreases s.len(),
{
    if s.len() > 0 {
        let rest = s.drop_first();
        assert forall|i: int| 0 <= i < rest.len() implies 0x20 <= #[trigger] (rest[i] as u32) && (rest[i] as u32) < 0x7f by {
            assert(rest[i] == s[i + 1]);
        }
        lemma_ascii_encode(rest);
        let c = s[0] as u32;
        assert(0x20 <= c && c < 0x7f);
        assert((c & 0x7f) == c) by (bit_vector)
            requires 0x20 <= c && c < 0x7f;
        assert(encode_scalar(c) == seq![(c & 0x7F) as u8]);
        let e = encode_utf8(s);
        assert(e == seq![(c & 0x7F) as u8] + encode_utf8(rest));
        assert forall|i: int| 0 <= i < s.len() implies #[trigger] e[i] == s[i] as u32 as u8 by {
            if i > 0 { assert(e[i] == encode_utf8(rest)[i - 1]); assert(rest[i - 1] == s[i]); }
        }
        assert forall|i: int| 0 <= i < s.len() implies 0x20 <= #[trigger] e[i] && e[i] < 0x7f by {
            if i > 0 { assert(e[i] == encode_utf8(rest)[i - 1]); }
        }
    }
}

/// Fed as bytes, a complete command-finished sequence `ESC ] 133;D;<n> BEL` with an
/// exit code n from 0 to 255 gives exactly one marker, with exit code n.
pub proof fn law_exit_code_feed(n: u8)
    ensures
        osc_feed(ParserState::Normal, Seq::empty(),
            seq![ESC, OSC_START] + encode_utf8("133;D;"@ + decimal(n as nat)) + seq![BEL])
            == (ParserState::Normal, Seq::<u8>::empty(), seq![ParsedMarker { kind: MarkerKind::PostExec, exit_code: Some(n) }]),
{
    let d = decimal(n as nat);
    lemma_decimal_digits(n as nat);
    reveal_strlit("133;D;");
    let s = "133;D;"@ + d;
    assert forall|i: int| 0 <= i < s.len() implies 0x20 <= #[trigger] (s[i] as u32) && (s[i] as u32) < 0x7f by {
        if i >= 6 {
            assert(s[i] == d[i - 6]);
            assert('0' <= d[i - 6] && d[i - 6] <= '9');
        }
    }
    lemma_ascii_encode(s);
    let data = encode_utf8(s);
    assert forall|i: int| 0 <= i < data.len() implies data[i] != BEL && data[i] != ESC by {
        assert(0x20 <= data[i]);
        assert(data[i] < 0x7f);
    }
    law_complete_osc(data);
    encode_utf8_valid_utf8(s);
    encode_utf8_decode_utf8(s);
    law_exit_code_read(n);
}

proof fn lemma_kind_only(k: char)
    requires
        k == 'A' || k == 'B' || k == 'C' || k == 'D',
    ensures
        parse_osc133_chars(seq!['1', '3', '3', ';', k]) == Some(ParsedMarker {
            kind: if k == 'A' { MarkerKind::PromptStart } else if k == 'B' { MarkerKind::PromptEnd }
                else if k == 'C' { MarkerKind::PreExec } else { MarkerKind::PostExec },
            exit_code: None,
        }),
{
    let s = seq!['1', '3', '3', ';', k];
    assert(trim_start(s) == s);
    assert(trim_end(s) == s);
    assert(s.subrange(0, 4) =~= osc133_prefix());
    let rest = s.skip(4);
    assert(rest =~= seq![k]);
    assert(crate::agent_status::find_char_from(rest, ';', 1) is None);
    assert(crate::agent_status::find_char_from(rest, ';', 0) is None);
    assert(rest.subrange(0, 1) =~= rest);
}

/// The letter after `133;` names the marker: A a prompt start, B a prompt end (input
/// begins), C a command start, D a finished command; a marker with nothing more carries
/// no exit code.
pub proof fn law_marker_letters()
    ensures
        parse_osc133_chars("133;A"@) == Some(ParsedMarker { kind: MarkerKind::PromptStart, exit_code: None }),
        parse_osc133_chars("133;B"@) == Some(ParsedMarker { kind: MarkerKind::PromptEnd, exit_code: None }),
        parse_osc133_chars("133;C"@) == Some(ParsedMarker { kind: MarkerKind::PreExec, exit_code: None }),
        parse_osc133_chars("133;D"@) == Some(ParsedMarker { kind: MarkerKind::PostExec, exit_code: None }),
{
    reveal_strlit("133;A");
    reveal_strlit("133;B");
    reveal_strlit("133;C");
    reveal_strlit("133;D");
    assert("133;A"@ =~= seq!['1', '3', '3', ';', 'A']);
    assert("133;B"@ =~= seq!['1', '3', '3', ';', 'B']);
    assert("133;C"@ =~= seq!['1', '3', '3', ';', 'C']);
    assert("133;D"@ =~= seq!['1', '3', '3', ';', 'D']);
    lemma_kind_only('A');
    lemma_kind_only('B');
    lemma_kind_only('C');
    lemma_kind_only('D');
}

} // verus!
