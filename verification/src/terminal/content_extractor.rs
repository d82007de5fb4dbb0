//! Extraction of the shell phase (OSC 133) and of the visible text from terminal output.
use vstd::prelude::*;
use crate::shell_integration::{Osc133Parser, ShellPhase, ParserState, ParsedMarker, MarkerKind, osc_feed, phase_after};

verus! {

/// State of the escape-sequence filter for visible text.
#[derive(Debug, Clone, Copy, PartialEq, Eq, Structural)]
pub enum TextState {
    Normal,
    AfterEsc,
    InCsi,
    InOsc,
    InOscAfterEsc,
}

/// Bytes kept as visible text: printable ASCII, newline, carriage return and tab.
pub open spec fn is_printable(b: u8) -> bool {
    (0x20 <= b && b <= 0x7e) || b == 0x0a || b == 0x0d || b == 0x09
}

/// One byte through the visible-text filter.
pub open spec fn text_step(st: TextState, buf: Seq<u8>, b: u8) -> (TextState, Seq<u8>) {
    match st {
        TextState::Normal => if b == 0x1b {
            (TextState::AfterEsc, buf)
        } else if is_printable(b) {
            (TextState::Normal, buf.push(b))
        } else {
            (TextState::Normal, buf)
        },
        TextState::AfterEsc => if b == 0x5b {
            (TextState::InCsi, buf)
        } else if b == 0x5d {
            (TextState::InOsc, buf)
        } else {
            (TextState::Normal, buf)
        },
        TextState::InCsi => if 0x40 <= b && b <= 0x7e { (TextState::Normal, buf) } else { (TextState::InCsi, buf) },
        TextState::InOsc => if b == 0x07 {
            (TextState::Normal, buf)
        } else if b == 0x1b {
            (TextState::InOscAfterEsc, buf)
        } else {
            (TextState::InOsc, buf)
        },
        TextState::InOscAfterEsc => if b == 0x5c { (TextState::Normal, buf) } else { (TextState::InOsc, buf) },
    }
}

/// A byte sequence through the visible-text filter.
pub open spec fn text_feed(st: TextState, buf: Seq<u8>, bytes: Seq<u8>) -> (TextState, Seq<u8>)
    decreases bytes.len(),
{
    if bytes.len() == 0 {
        (st, buf)
    } else {
        let (s1, b1) = text_feed(st, buf, bytes.drop_last());
        text_step(s1, b1, bytes.last())
    }
}

/// Phase after a list of markers: that of the last one, if any.
pub open spec fn phase_after_markers(phase: ShellPhase, markers: Seq<ParsedMarker>) -> ShellPhase {
    if markers.len() == 0 { phase } else { phase_after(markers.last().kind) }
}

/// All bytes are visible-text bytes.
pub open spec fn all_printable(buf: Seq<u8>) -> bool {
    forall|i: int| 0 <= i < buf.len() ==> is_printable(#[trigger] buf[i])
}

/// Extracts the shell phase and the visible text (without CSI and OSC sequences)
/// from terminal output.
pub struct ContentExtractor {
    osc133: Osc133Parser,
    phase: ShellPhase,
    text_buf: Vec<u8>,
    text_state: TextState,
}

/// The extractor's state as plain values.
pub struct ExtractorView {
    pub osc: (ParserState, Seq<u8>),
    pub phase: ShellPhase,
    pub text: Seq<u8>,
    pub text_state: TextState,
}

impl View for ContentExtractor {
    type V = ExtractorView;

    closed spec fn view(&self) -> ExtractorView {
        ExtractorView { osc: self.osc133@, phase: self.phase, text: self.text_buf@, text_state: self.text_state }
    }
}

impl ContentExtractor {
    /// Extractor with no text, phase `Unknown`.
    pub fn new() -> (r: Self)
        ensures
            r@.osc == (ParserState::Normal, Seq::<u8>::empty()),
            r@.phase == ShellPhase::Unknown,
            r@.text.len() == 0,
            r@.text_state == TextState::Normal,
    {
        ContentExtractor {
            osc133: Osc133Parser::new(),
            phase: ShellPhase::Unknown,
            text_buf: Vec::new(),
            text_state: TextState::Normal,
        }
    }

    /// Feeds terminal output: the phase follows the last OSC 133 marker completed, and
    /// the visible bytes are appended to the text.
    pub fn feed(&mut self, bytes: &[u8])
        ensures
            ({
                let (os, ob, markers) = osc_feed(old(self)@.osc.0, old(self)@.osc.1, bytes@);
                let (ts, tb) = text_feed(old(self)@.text_state, old(self)@.text, bytes@);
                &&& final(self)@.osc == (os, ob)
                &&& final(self)@.phase == phase_after_markers(old(self)@.phase, markers)
                &&& final(self)@.text == tb
                &&& final(self)@.text_state == ts
            }),
    {
        let markers = self.osc133.feed(bytes);
        let mut k: usize = 0;
        let ghost p0 = self.phase;
        let ghost o1 = self.osc133@;
        let ghost t1 = self.text_buf@;
        let ghost s1 = self.text_state;
        while k < markers.len()
            invariant
                k <= markers.len(),
                self.osc133@ == o1,
                self.text_buf@ == t1,
                self.text_state == s1,
                self.phase == phase_after_markers(p0, markers@.take(k as int)),
            decreases markers.len() - k,
        {
            self.phase = match markers[k].kind {
                MarkerKind::PromptStart => ShellPhase::Prompt,
                MarkerKind::PromptEnd => ShellPhase::Input,
                MarkerKind::PreExec => ShellPhase::Running,
                MarkerKind::PostExec => ShellPhase::Output,
            };
            proof { assert(markers@.take(k + 1).last() == markers@[k as int]); }
            k = k + 1;
        }
        proof { assert(markers@.take(markers@.len() as int) =~= markers@); }
        let mut i: usize = 0;
        let ghost st0 = self.text_state;
        let ghost b0 = self.text_buf@;
        let ghost ph = self.phase;
        while i < bytes.len()
            invariant
                i <= bytes.len(),
                self.osc133@ == o1,
                self.phase == ph,
                (self.text_state, self.text_buf@) == text_feed(st0, b0, bytes@.take(i as int)),
            decreases bytes.len() - i,
        {
            proof { assert(bytes@.take(i + 1).drop_last() =~= bytes@.take(i as int)); }
            self.advance_text(bytes[i]);
            i = i + 1;
        }
        proof { assert(bytes@.take(bytes@.len() as int) =~= bytes@); }
    }

    fn advance_text(&mut self, b: u8)
        ensures
            (final(self).text_state, final(self).text_buf@) == text_step(old(self).text_state, old(self).text_buf@, b),
            final(self).phase == old(self).phase,
            final(self).osc133 == old(self).osc133,
    {
        match self.text_state {
            TextState::Normal => {
                if b == 0x1b {
                    self.text_state = TextState::AfterEsc;
                } else if (0x20 <= b && b <= 0x7e) || b == 0x0a || b == 0x0d || b == 0x09 {
                    self.text_buf.push(b);
                }
            },
            TextState::AfterEsc => {
                if b == 0x5b {
                    self.text_state = TextState::InCsi;
                } else if b == 0x5d {
                    self.text_state = TextState::InOsc;
                } else {
                    self.text_state = TextState::Normal;
                }
            },
            TextState::InCsi => {
                if 0x40 <= b && b <= 0x7e {
                    self.text_state = TextState::Normal;
                }
            },
            TextState::InOsc => {
                if b == 0x07 {
                    self.text_state = TextState::Normal;
                } else if b == 0x1b {
                    self.text_state = TextState::InOscAfterEsc;
                }
            },
            TextState::InOscAfterEsc => {
                if b == 0x5c {
                    self.text_state = TextState::Normal;
                } else {
                    self.text_state = TextState::InOsc;
                }
            },
        }
    }

    /// Current shell phase.
    pub fn shell_phase(&self) -> (r: ShellPhase)
        ensures
            r == self@.phase,
    {
        self.phase
    }

    /// Returns the accumulated visible text and clears it. The second element is
    /// reserved.
    pub fn take_content(&mut self) -> (r: (String, ()))
        ensures
            r.0@ == old(self)@.text.map_values(|b: u8| b as char),
            final(self)@.text.len() == 0,
            final(self)@.osc == old(self)@.osc,
            final(self)@.phase == old(self)@.phase,
            final(self)@.text_state == old(self)@.text_state,
    {
        let mut chars: Vec<char> = Vec::new();
        let mut i: usize = 0;
        while i < self.text_buf.len()
            invariant
                i <= self.text_buf.len(),
                chars@ == self.text_buf@.take(i as int).map_values(|b: u8| b as char),
            decreases self.text_buf.len() - i,
        {
            chars.push(self.text_buf[i] as char);
            proof { assert(chars@ =~= self.text_buf@.take(i + 1).map_values(|b: u8| b as char)); }
            i = i + 1;
        }
        proof { assert(self.text_buf@.take(self.text_buf@.len() as int) =~= self.text_buf@); }
        let s = crate::text::string_from_chars(&chars);
        self.text_buf.clear();
        (s, ())
    }
}

impl Default for ContentExtractor {
    fn default() -> (r: Self)
        ensures
            r@.phase == ShellPhase::Unknown,
            r@.text.len() == 0,
    {
        ContentExtractor::new()
    }
}

/// The visible text only ever holds printable bytes: escape sequences and control
/// bytes never reach it.
pub proof fn law_text_is_printable(st: TextState, buf: Seq<u8>, bytes: Seq<u8>)
    requires
        all_printable(buf),
    ensures
        all_printable(text_feed(st, buf, bytes).1),
    decreases bytes.len(),
{
    if bytes.len() > 0 {
        law_text_is_printable(st, buf, bytes.drop_last());
        let (s1, b1) = text_feed(st, buf, bytes.drop_last());
        let (s2, b2) = text_step(s1, b1, bytes.last());
        assert forall|i: int| 0 <= i < b2.len() implies is_printable(#[trigger] b2[i]) by {
            if i < b1.len() { assert(b2[i] == b1[i]); }
        }
    }
}

/// A CSI sequence such as a color change, fed in the normal state, adds nothing to the text.
pub proof fn law_csi_invisible(buf: Seq<u8>, params: Seq<u8>, fin: u8)
    requires
        forall|i: int| 0 <= i < params.len() ==> !(0x40 <= #[trigger] params[i] && params[i] <= 0x7e),
        0x40 <= fin && fin <= 0x7e,
    ensures
        text_feed(TextState::Normal, buf, seq![0x1bu8, 0x5bu8] + params + seq![fin]) == (TextState::Normal, buf),
{
    let pre = seq![0x1bu8, 0x5bu8];
    assert(text_feed(TextState::Normal, buf, pre) == (TextState::InCsi, buf)) by {
        let one = seq![0x1bu8];
        assert(pre.drop_last() =~= one);
        assert(one.drop_last() =~= Seq::<u8>::empty());
        assert(text_feed(TextState::Normal, buf, Seq::<u8>::empty()) == (TextState::Normal, buf));
        assert(text_feed(TextState::Normal, buf, one) == (TextState::AfterEsc, buf));
    }
    lemma_csi_params(buf, pre, params);
    assert((pre + params + seq![fin]).drop_last() =~= pre + params);
}

proof fn lemma_csi_params(buf: Seq<u8>, pre: Seq<u8>, params: Seq<u8>)
    requires
        text_feed(TextState::Normal, buf, pre) == (TextState::InCsi, buf),
        forall|i: int| 0 <= i < params.len() ==> !(0x40 <= #[trigger] params[i] && params[i] <= 0x7e),
    ensures
        text_feed(TextState::Normal, buf, pre + params) == (TextState::InCsi, buf),
    decreases params.len(),
{
    if params.len() == 0 {
        assert(pre + params =~= pre);
    } else {
        lemma_csi_params(buf, pre, params.drop_last());
        assert((pre + params).drop_last() =~= pre + params.drop_last());
        assert((pre + params).last() == params[params.len() - 1]);
    }
}

} // verus!
