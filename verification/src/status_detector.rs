//! Agent status detection. The process lifecycle decides first, then the shell-integration
//! phase, then text patterns over the last lines of the terminal; a debounced tracker keeps
//! the status steady until a new one has been seen often enough.
use vstd::prelude::*;
use crate::agent_status::AgentStatus;
use crate::shell_integration::{ShellPhase, ShellPhaseInfo};
use crate::pattern::{Pattern, compile, is_match, error_text, regex_compiles, regex_matches};
use crate::text::{chars_of, string_from_chars, trim, trim_chars};

verus! {

/// Process lifecycle status from the runtime layer.
#[derive(Debug, Clone, Copy, PartialEq, Eq, Structural)]
pub enum ProcessStatus {
    /// Process is running normally.
    Running,
    /// Process exited with code 0.
    Exited,
    /// Process exited with a non-zero code.
    Error,
    /// Not started, or not monitored.
    Unknown,
}

impl Default for ProcessStatus {
    fn default() -> (r: Self)
        ensures
            r == ProcessStatus::Unknown,
    {
        ProcessStatus::Unknown
    }
}

/// A pattern that `regex` refused.
#[derive(Debug, Clone)]
pub struct PatternError {
    pub pattern: String,
    pub message: String,
}

/// Default patterns that mean the agent is working.
pub open spec fn default_running() -> Seq<Seq<char>> {
    seq!["(?i)thinking|analyzing|processing"@, "(?i)reasoning|streaming"@, "(?i)writing|generating|creating"@, "(?i)running tool|executing|performing"@, "(?i)loading|downloading|uploading"@, "(?i)in progress|working on|busy"@, "(?i)esc to interrupt|^\\s*>"@]
}

/// Default patterns that mean the agent waits for input.
pub open spec fn default_waiting() -> Seq<Seq<char>> {
    seq!["^\\?\\s"@, "^>\\s"@, "(?i)human:|user:|awaiting input"@, "(?i)press enter|hit enter|continue\\\\?"@, "(?i)waiting for|ready for"@, "(?i)your turn|input required"@]
}

/// Default patterns that mean the agent asks for permission.
pub open spec fn default_confirm() -> Seq<Seq<char>> {
    seq!["(?i)(requires approval|needs approval|permission to|don't ask again)"@, "(?i)(Accept|Reject|Allow|Deny)\\s+(all|this)"@, "(?i)Always allow|Always deny"@, "(?i)This command requires"@, "(?i)approval required|approve\\s"@, "(?i)Run without asking"@]
}

/// Default patterns that mean an error.
pub open spec fn default_error() -> Seq<Seq<char>> {
    seq!["(?i)error|exception|failure|failed"@, "(?i)panic|abort|crash"@, "(?i)traceback|stack trace"@, "(?i)syntax error|compile error"@, "(?i)command not found|exit code [1-9]"@]
}

/// The patterns of `ps` that compile, in order.
pub open spec fn keep_valid(ps: Seq<Seq<char>>) -> Seq<Seq<char>>
    decreases ps.len(),
{
    if ps.len() == 0 {
        Seq::empty()
    } else {
        let r = keep_valid(ps.drop_last());
        if regex_compiles(ps.last()) { r.push(ps.last()) } else { r }
    }
}

/// Pattern texts of compiled patterns.
pub open spec fn patterns_view(v: Seq<Pattern>) -> Seq<Seq<char>> {
    v.map_values(|p: Pattern| p@)
}

/// Texts of string slices.
pub open spec fn strs_view(v: Seq<&str>) -> Seq<Seq<char>> {
    v.map_values(|s: &str| s@)
}

/// A detector as plain values: its four pattern lists and how many lines it looks at.
pub struct DetectorView {
    pub running: Seq<Seq<char>>,
    pub waiting: Seq<Seq<char>>,
    pub confirm: Seq<Seq<char>>,
    pub error: Seq<Seq<char>>,
    pub line_count: nat,
}

/// Detects agent status from terminal content.
#[derive(Debug)]
pub struct StatusDetector {
    running_patterns: Vec<Pattern>,
    waiting_patterns: Vec<Pattern>,
    confirm_patterns: Vec<Pattern>,
    error_patterns: Vec<Pattern>,
    check_line_count: usize,
}

impl View for StatusDetector {
    type V = DetectorView;

    closed spec fn view(&self) -> DetectorView {
        DetectorView {
            running: patterns_view(self.running_patterns@),
            waiting: patterns_view(self.waiting_patterns@),
            confirm: patterns_view(self.confirm_patterns@),
            error: patterns_view(self.error_patterns@),
            line_count: self.check_line_count as nat,
        }
    }
}

// ---- removing colour escapes -------------------------------------------------------

/// A parameter character of a colour escape: a digit or `;`.
pub open spec fn is_sgr_param(c: char) -> bool {
    ('0' <= c && c <= '9') || c == ';'
}

/// End of the run of parameter characters that starts at `j`.
pub open spec fn param_run_end(s: Seq<char>, j: int) -> int
    decreases s.len() - j,
{
    if 0 <= j < s.len() && is_sgr_param(s[j]) { param_run_end(s, j + 1) } else { j }
}

/// Length of the colour escape `ESC [ params m` that starts at `i`, or 0 where none does.
pub open spec fn sgr_len(s: Seq<char>, i: int) -> int {
    if 0 <= i && i + 1 < s.len() && s[i] == '\x1b' && s[i + 1] == '[' {
        let k = param_run_end(s, i + 2);
        if k < s.len() && s[k] == 'm' { k + 1 - i } else { 0 }
    } else {
        0
    }
}

/// `s` from `i` on, with every colour escape removed (left to right, without overlap).
pub open spec fn strip_sgr_from(s: Seq<char>, i: int) -> Seq<char>
    decreases s.len() - i,
{
    if i < 0 || i >= s.len() {
        Seq::empty()
    } else if sgr_len(s, i) > 0 {
        strip_sgr_from(s, i + sgr_len(s, i))
    } else {
        seq![s[i]] + strip_sgr_from(s, i + 1)
    }
}

fn is_param(c: char) -> (r: bool)
    ensures
        r == is_sgr_param(c),
{
    ('0' <= c && c <= '9') || c == ';'
}

fn sgr_len_at(v: &Vec<char>, i: usize) -> (r: usize)
    requires
        i < v.len(),
    ensures
        r == sgr_len(v@, i as int),
        r > 0 ==> i + r <= v.len(),
{
    if i + 1 < v.len() && v[i] == '\x1b' && v[i + 1] == '[' {
        let mut k = i + 2;
        while k < v.len() && is_param(v[k])
            invariant
                i + 2 <= k <= v.len(),
                param_run_end(v@, (i + 2) as int) == param_run_end(v@, k as int),
            decreases v.len() - k,
        {
            k = k + 1;
        }
        if k < v.len() && v[k] == 'm' {
            k + 1 - i
        } else {
            0
        }
    } else {
        0
    }
}

/// `v` with every colour escape removed.
pub fn strip_sgr(v: &Vec<char>) -> (r: Vec<char>)
    ensures
        r@ == strip_sgr_from(v@, 0),
{
    let mut out: Vec<char> = Vec::new();
    let mut i: usize = 0;
    while i < v.len()
        invariant
            i <= v.len(),
            out@ + strip_sgr_from(v@, i as int) == strip_sgr_from(v@, 0),
        decreases v.len() - i,
    {
        let l = sgr_len_at(v, i);
        if l > 0 {
            i = i + l;
        } else {
            let ghost rest = strip_sgr_from(v@, i + 1);
            out.push(v[i]);
            proof { assert(out@ + rest =~= out@.drop_last() + (seq![v@[i as int]] + rest)); }
            i = i + 1;
        }
    }
    proof { assert(out@ + strip_sgr_from(v@, i as int) =~= out@); }
    out
}

// ---- lines ------------------------------------------------------------------------

/// A line without the `\r` that ended it, if one did.
pub open spec fn strip_cr(l: Seq<char>) -> Seq<char> {
    if l.len() > 0 && l.last() == '\r' { l.drop_last() } else { l }
}

/// Splitting `s` at `\n`: the finished lines, and the text after the last `\n`.
pub open spec fn lines_scan(s: Seq<char>) -> (Seq<Seq<char>>, Seq<char>)
    decreases s.len(),
{
    if s.len() == 0 {
        (Seq::empty(), Seq::empty())
    } else {
        let st = lines_scan(s.drop_last());
        if s.last() == '\n' {
            (st.0.push(strip_cr(st.1)), Seq::empty())
        } else {
            (st.0, st.1.push(s.last()))
        }
    }
}

/// The lines of `s` as `str::lines` gives them: split at `\n`, a `\r` before it dropped,
/// and no empty last line after a final `\n`.
pub open spec fn lines_of(s: Seq<char>) -> Seq<Seq<char>> {
    let st = lines_scan(s);
    if st.1.len() > 0 { st.0.push(st.1) } else { st.0 }
}

/// Lines joined with `\n` between them.
pub open spec fn join_lines(ls: Seq<Seq<char>>) -> Seq<char>
    decreases ls.len(),
{
    if ls.len() == 0 {
        Seq::empty()
    } else if ls.len() == 1 {
        ls[0]
    } else {
        join_lines(ls.drop_last()) + seq!['\n'] + ls.last()
    }
}

/// The last `n` lines (all of them where there are fewer).
pub open spec fn last_lines(ls: Seq<Seq<char>>, n: nat) -> Seq<Seq<char>> {
    if ls.len() > n { ls.skip(ls.len() - n) } else { ls }
}

/// The text that detection looks at: colour escapes removed, then the last `n` lines.
pub open spec fn preprocess_spec(content: Seq<char>, n: nat) -> Seq<char> {
    join_lines(last_lines(lines_of(strip_sgr_from(content, 0)), n))
}

/// Texts of character vectors.
pub open spec fn lines_view(v: Seq<Vec<char>>) -> Seq<Seq<char>> {
    v.map_values(|l: Vec<char>| l@)
}

pub(crate) fn split_lines(v: &Vec<char>) -> (r: Vec<Vec<char>>)
    ensures
        lines_view(r@) == lines_of(v@),
{
    let mut done: Vec<Vec<char>> = Vec::new();
    let mut cur: Vec<char> = Vec::new();
    let mut i: usize = 0;
    while i < v.len()
        invariant
            i <= v.len(),
            (lines_view(done@), cur@) == lines_scan(v@.take(i as int)),
        decreases v.len() - i,
    {
        let c = v[i];
        proof {
            assert(v@.take(i + 1).drop_last() =~= v@.take(i as int));
            assert(v@.take(i + 1).last() == c);
        }
        if c == '\n' {
            let ghost before = cur@;
            if cur.len() > 0 && cur[cur.len() - 1] == '\r' {
                cur.pop();
            }
            assert(cur@ == strip_cr(before));
            done.push(cur);
            cur = Vec::new();
            proof { assert(lines_view(done@) =~= lines_view(done@.drop_last()).push(strip_cr(before))); }
        } else {
            cur.push(c);
        }
        i = i + 1;
    }
    proof { assert(v@.take(v@.len() as int) =~= v@); }
    if cur.len() > 0 {
        let ghost d = done@;
        done.push(cur);
        proof { assert(lines_view(done@) =~= lines_view(d).push(done@.last()@)); }
    }
    done
}

fn join_from(ls: &Vec<Vec<char>>, start: usize) -> (r: Vec<char>)
    requires
        start <= ls.len(),
    ensures
        r@ == join_lines(lines_view(ls@).subrange(start as int, ls@.len() as int)),
{
    let ghost lv = lines_view(ls@);
    let mut out: Vec<char> = Vec::new();
    let mut j: usize = start;
    while j < ls.len()
        invariant
            start <= j <= ls.len(),
            lv == lines_view(ls@),
            out@ == join_lines(lv.subrange(start as int, j as int)),
        decreases ls.len() - j,
    {
        proof { assert(lv.subrange(start as int, j + 1).drop_last() =~= lv.subrange(start as int, j as int)); }
        if j > start {
            out.push('\n');
        }
        let mut k: usize = 0;
        let ghost base = out@;
        while k < ls[j].len()
            invariant
                j < ls.len(),
                k <= ls@[j as int]@.len(),
                out@ == base + ls@[j as int]@.take(k as int),
            decreases ls[j as int]@.len() - k,
        {
            out.push(ls[j][k]);
            proof { assert(out@ =~= base + ls@[j as int]@.take(k + 1)); }
            k = k + 1;
        }
        proof {
            assert(ls@[j as int]@.take(k as int) =~= ls@[j as int]@);
            if j > start {
                assert(out@ =~= join_lines(lv.subrange(start as int, j as int)) + seq!['\n'] + lv[j as int]);
            } else {
                assert(out@ =~= lv.subrange(start as int, j + 1)[0]);
            }
        }
        j = j + 1;
    }
    out
}

// ---- matching ---------------------------------------------------------------------

/// Some pattern of `ps` matches in `t`.
pub open spec fn any_matches(ps: Seq<Seq<char>>, t: Seq<char>) -> bool {
    exists|i: int| 0 <= i < ps.len() && #[trigger] regex_matches(ps[i], t)
}

/// How many patterns of `ps` match in `t`.
pub open spec fn count_matches(ps: Seq<Seq<char>>, t: Seq<char>) -> nat
    decreases ps.len(),
{
    if ps.len() == 0 {
        0
    } else {
        count_matches(ps.drop_last(), t) + if regex_matches(ps.last(), t) { 1nat } else { 0nat }
    }
}

fn matches_any(ps: &Vec<Pattern>, text: &str) -> (r: bool)
    ensures
        r == any_matches(patterns_view(ps@), text@),
{
    let ghost pv = patterns_view(ps@);
    let mut i: usize = 0;
    while i < ps.len()
        invariant
            i <= ps.len(),
            pv == patterns_view(ps@),
            forall|k: int| 0 <= k < i ==> !regex_matches(#[trigger] pv[k], text@),
        decreases ps.len() - i,
    {
        if is_match(&ps[i], text) {
            assert(regex_matches(pv[i as int], text@));
            return true;
        }
        i = i + 1;
    }
    false
}

fn count_matching(ps: &Vec<Pattern>, text: &str) -> (r: usize)
    ensures
        r == count_matches(patterns_view(ps@), text@),
{
    let ghost pv = patterns_view(ps@);
    let mut n: usize = 0;
    let mut i: usize = 0;
    while i < ps.len()
        invariant
            i <= ps.len(),
            pv == patterns_view(ps@),
            n == count_matches(pv.take(i as int), text@),
            n <= i,
        decreases ps.len() - i,
    {
        proof { assert(pv.take(i + 1).drop_last() =~= pv.take(i as int)); }
        if is_match(&ps[i], text) {
            n = n + 1;
        }
        i = i + 1;
    }
    proof { assert(pv.take(pv.len() as int) =~= pv); }
    n
}

fn compile_all(lits: &Vec<&str>) -> (r: Vec<Pattern>)
    ensures
        patterns_view(r@) == keep_valid(strs_view(lits@)),
{
    let ghost lv = strs_view(lits@);
    let mut out: Vec<Pattern> = Vec::new();
    let mut i: usize = 0;
    while i < lits.len()
        invariant
            i <= lits.len(),
            lv == strs_view(lits@),
            patterns_view(out@) == keep_valid(lv.take(i as int)),
        decreases lits.len() - i,
    {
        proof { assert(lv.take(i + 1).drop_last() =~= lv.take(i as int)); }
        match compile(lits[i]) {
            Ok(p) => {
                let ghost before = out@;
                out.push(p);
                proof { assert(patterns_view(out@) =~= patterns_view(before).push(p@)); }
            },
            Err(_) => {},
        }
        i = i + 1;
    }
    proof { assert(lv.take(lv.len() as int) =~= lv); }
    out
}

fn push_pattern(v: &mut Vec<Pattern>, pattern: &str) -> (r: Result<(), PatternError>)
    ensures
        r is Ok <==> regex_compiles(pattern@),
        r is Ok ==> patterns_view(final(v)@) == patterns_view(old(v)@).push(pattern@),
        r is Err ==> final(v)@ == old(v)@,
        r matches Err(e) ==> e.pattern@ == pattern@,
{
    match compile(pattern) {
        Ok(p) => {
            v.push(p);
            proof { assert(patterns_view(v@) =~= patterns_view(old(v)@).push(pattern@)); }
            Ok(())
        },
        Err(e) => Err(PatternError { pattern: pattern.to_string(), message: error_text(&e) }),
    }
}

/// Detection from text alone: permission request, then error, then waiting, then
/// working, then idle for any other non-blank text, else unknown.
pub open spec fn text_status(v: DetectorView, content: Seq<char>) -> AgentStatus {
    let p = preprocess_spec(content, v.line_count);
    if any_matches(v.confirm, p) {
        AgentStatus::WaitingConfirm
    } else if any_matches(v.error, p) {
        AgentStatus::Error
    } else if any_matches(v.waiting, p) {
        AgentStatus::Waiting
    } else if any_matches(v.running, p) {
        AgentStatus::Running
    } else if trim(p).len() > 0 {
        AgentStatus::Idle
    } else {
        AgentStatus::Unknown
    }
}

/// Full detection: an ended process decides; else the shell phase where it is telling;
/// else the text.
pub open spec fn detect_spec(v: DetectorView, process: ProcessStatus, info: Option<ShellPhaseInfo>, content: Seq<char>) -> AgentStatus {
    match process {
        ProcessStatus::Exited => AgentStatus::Exited,
        ProcessStatus::Error => AgentStatus::Error,
        _ => match info {
            Some(i) => match i.phase {
                ShellPhase::Running => AgentStatus::Running,
                ShellPhase::Input | ShellPhase::Prompt => AgentStatus::Waiting,
                ShellPhase::Output => if (i.last_post_exec_exit_code matches Some(c) && c != 0) {
                    AgentStatus::Error
                } else {
                    text_status(v, content)
                },
                ShellPhase::Unknown => text_status(v, content),
            },
            None => text_status(v, content),
        },
    }
}

impl StatusDetector {
    /// A detector with the default patterns, looking at the last 50 lines.
    pub fn new() -> (r: Self)
        ensures
            r@.running == keep_valid(default_running()),
            r@.waiting == keep_valid(default_waiting()),
            r@.confirm == keep_valid(default_confirm()),
            r@.error == keep_valid(default_error()),
            r@.line_count == 50,
    {
        let running: Vec<&str> = vec!["(?i)thinking|analyzing|processing", "(?i)reasoning|streaming", "(?i)writing|generating|creating", "(?i)running tool|executing|performing", "(?i)loading|downloading|uploading", "(?i)in progress|working on|busy", "(?i)esc to interrupt|^\\s*>"];
        let waiting: Vec<&str> = vec!["^\\?\\s", "^>\\s", "(?i)human:|user:|awaiting input", "(?i)press enter|hit enter|continue\\\\?", "(?i)waiting for|ready for", "(?i)your turn|input required"];
        let confirm: Vec<&str> = vec!["(?i)(requires approval|needs approval|permission to|don't ask again)", "(?i)(Accept|Reject|Allow|Deny)\\s+(all|this)", "(?i)Always allow|Always deny", "(?i)This command requires", "(?i)approval required|approve\\s", "(?i)Run without asking"];
        let error: Vec<&str> = vec!["(?i)error|exception|failure|failed", "(?i)panic|abort|crash", "(?i)traceback|stack trace", "(?i)syntax error|compile error", "(?i)command not found|exit code [1-9]"];
        proof {
            assert(strs_view(running@) =~= default_running());
            assert(strs_view(waiting@) =~= default_waiting());
            assert(strs_view(confirm@) =~= default_confirm());
            assert(strs_view(error@) =~= default_error());
        }
        StatusDetector {
            running_patterns: compile_all(&running),
            waiting_patterns: compile_all(&waiting),
            confirm_patterns: compile_all(&confirm),
            error_patterns: compile_all(&error),
            check_line_count: 50,
        }
    }

    /// The same detector looking at the last `count` lines.
    pub fn with_line_count(self, count: usize) -> (r: Self)
        ensures
            r@ == (DetectorView { line_count: count as nat, ..self@ }),
    {
        let mut s = self;
        s.check_line_count = count;
        s
    }

    /// Adds a pattern that means the agent is working; fails where the pattern does not
    /// compile.
    pub fn add_running_pattern(self, pattern: &str) -> (r: Result<Self, PatternError>)
        ensures
            r is Ok <==> regex_compiles(pattern@),
            r matches Ok(d) ==> d@ == (DetectorView { running: self@.running.push(pattern@), ..self@ }),
            r matches Err(e) ==> e.pattern@ == pattern@,
    {
        let mut s = self;
        match push_pattern(&mut s.running_patterns, pattern) {
            Ok(()) => Ok(s),
            Err(e) => Err(e),
        }
    }

    /// Adds a pattern that means the agent waits for input; fails where the pattern does
    /// not compile.
    pub fn add_waiting_pattern(self, pattern: &str) -> (r: Result<Self, PatternError>)
        ensures
            r is Ok <==> regex_compiles(pattern@),
            r matches Ok(d) ==> d@ == (DetectorView { waiting: self@.waiting.push(pattern@), ..self@ }),
            r matches Err(e) ==> e.pattern@ == pattern@,
    {
        let mut s = self;
        match push_pattern(&mut s.waiting_patterns, pattern) {
            Ok(()) => Ok(s),
            Err(e) => Err(e),
        }
    }

    /// Adds a pattern that means the agent asks for permission; fails where the pattern
    /// does not compile.
    pub fn add_confirm_pattern(self, pattern: &str) -> (r: Result<Self, PatternError>)
        ensures
            r is Ok <==> regex_compiles(pattern@),
            r matches Ok(d) ==> d@ == (DetectorView { confirm: self@.confirm.push(pattern@), ..self@ }),
            r matches Err(e) ==> e.pattern@ == pattern@,
    {
        let mut s = self;
        match push_pattern(&mut s.confirm_patterns, pattern) {
            Ok(()) => Ok(s),
            Err(e) => Err(e),
        }
    }

    /// Adds a pattern that means an error; fails where the pattern does not compile.
    pub fn add_error_pattern(self, pattern: &str) -> (r: Result<Self, PatternError>)
        ensures
            r is Ok <==> regex_compiles(pattern@),
            r matches Ok(d) ==> d@ == (DetectorView { error: self@.error.push(pattern@), ..self@ }),
            r matches Err(e) ==> e.pattern@ == pattern@,
    {
        let mut s = self;
        match push_pattern(&mut s.error_patterns, pattern) {
            Ok(()) => Ok(s),
            Err(e) => Err(e),
        }
    }

    /// Status from the process lifecycle, the shell phase and the terminal text, in that
    /// order of priority.
    pub fn detect(&self, process_status: ProcessStatus, shell_info: Option<ShellPhaseInfo>, content: &str) -> (r: AgentStatus)
        ensures
            r == detect_spec(self@, process_status, shell_info, content@),
    {
        match process_status {
            ProcessStatus::Exited => return AgentStatus::Exited,
            ProcessStatus::Error => return AgentStatus::Error,
            _ => {},
        }
        match shell_info {
            Some(info) => match info.phase {
                ShellPhase::Running => return AgentStatus::Running,
                ShellPhase::Input | ShellPhase::Prompt => return AgentStatus::Waiting,
                ShellPhase::Output => {
                    match info.last_post_exec_exit_code {
                        Some(code) => {
                            if code != 0 {
                                return AgentStatus::Error;
                            }
                        },
                        None => {},
                    }
                },
                ShellPhase::Unknown => {},
            },
            None => {},
        }
        self.detect_from_text(content)
    }

    /// Status from the terminal text alone.
    pub fn detect_from_text(&self, content: &str) -> (r: AgentStatus)
        ensures
            r == text_status(self@, content@),
    {
        let processed = self.preprocess_chars(content);
        let text = string_from_chars(&processed);
        if matches_any(&self.confirm_patterns, text.as_str()) {
            return AgentStatus::WaitingConfirm;
        }
        if matches_any(&self.error_patterns, text.as_str()) {
            return AgentStatus::Error;
        }
        if matches_any(&self.waiting_patterns, text.as_str()) {
            return AgentStatus::Waiting;
        }
        if matches_any(&self.running_patterns, text.as_str()) {
            return AgentStatus::Running;
        }
        let t = trim_chars(&processed);
        if t.len() > 0 {
            return AgentStatus::Idle;
        }
        AgentStatus::Unknown
    }

    fn preprocess_chars(&self, content: &str) -> (r: Vec<char>)
        ensures
            r@ == preprocess_spec(content@, self@.line_count),
    {
        let chars = chars_of(content);
        let stripped = strip_sgr(&chars);
        let lines = split_lines(&stripped);
        let n = self.check_line_count;
        let start: usize = if lines.len() > n { lines.len() - n } else { 0 };
        let r = join_from(&lines, start);
        proof {
            let lv = lines_view(lines@);
            assert(lv.subrange(start as int, lv.len() as int) =~= last_lines(lv, n as nat));
        }
        r
    }

    /// The text that detection looks at: colour escapes removed, then the last lines.
    pub fn preprocess(&self, content: &str) -> (r: String)
        ensures
            r@ == preprocess_spec(content@, self@.line_count),
    {
        let v = self.preprocess_chars(content);
        string_from_chars(&v)
    }

    /// What the confidence score is made of: the largest number of matching patterns in
    /// one list, and the number of patterns in all lists.
    pub fn confidence_counts(&self, content: &str) -> (r: (usize, usize))
        requires
            self@.running.len() + self@.waiting.len() + self@.confirm.len() + self@.error.len() <= usize::MAX,
        ensures
            ({
                let p = preprocess_spec(content@, self@.line_count);
                let e = count_matches(self@.error, p);
                let w = count_matches(self@.waiting, p);
                let c = count_matches(self@.confirm, p);
                let u = count_matches(self@.running, p);
                let m1 = if e >= w { e } else { w };
                let m2 = if m1 >= c { m1 } else { c };
                &&& r.0 == (if m2 >= u { m2 } else { u })
                &&& r.1 == self@.running.len() + self@.waiting.len() + self@.confirm.len() + self@.error.len()
            }),
    {
        let text = self.preprocess(content);
        let e = count_matching(&self.error_patterns, text.as_str());
        let w = count_matching(&self.waiting_patterns, text.as_str());
        let c = count_matching(&self.confirm_patterns, text.as_str());
        let u = count_matching(&self.running_patterns, text.as_str());
        let m1 = if e >= w { e } else { w };
        let m2 = if m1 >= c { m1 } else { c };
        let m = if m2 >= u { m2 } else { u };
        let total = self.error_patterns.len() + self.waiting_patterns.len() + self.confirm_patterns.len()
            + self.running_patterns.len();
        (m, total)
    }
}

impl Default for StatusDetector {
    fn default() -> (r: Self)
        ensures
            r@.running == keep_valid(default_running()),
            r@.waiting == keep_valid(default_waiting()),
            r@.confirm == keep_valid(default_confirm()),
            r@.error == keep_valid(default_error()),
            r@.line_count == 50,
    {
        StatusDetector::new()
    }
}

// ---- debouncing ---------------------------------------------------------------------

/// The debounced state as plain values.
pub struct TrackerView {
    pub current: AgentStatus,
    pub pending: Option<AgentStatus>,
    pub count: u8,
    pub threshold: u8,
}

/// Statuses that take effect at once, without debouncing.
pub open spec fn is_immediate(s: AgentStatus) -> bool {
    s == AgentStatus::Error || s == AgentStatus::Exited || s == AgentStatus::WaitingConfirm
}

/// One observation of `d`: the next state, and whether the current status changed.
/// An immediate status is taken at once. Any other one first becomes pending; each
/// further observation of the same status counts up (saturating), and once the count
/// reaches the threshold a status different from the current one is taken.
pub open spec fn debounce_step(t: TrackerView, d: AgentStatus) -> (TrackerView, bool) {
    if is_immediate(d) {
        if t.current != d {
            (TrackerView { current: d, pending: None, count: 0, threshold: t.threshold }, true)
        } else {
            (t, false)
        }
    } else if t.pending == Some(d) {
        let c: u8 = if t.count < 255 { (t.count + 1) as u8 } else { 255 };
        if c >= t.threshold && t.current != d {
            (TrackerView { current: d, pending: None, count: 0, threshold: t.threshold }, true)
        } else {
            (TrackerView { count: c, ..t }, false)
        }
    } else {
        (TrackerView { pending: Some(d), count: 1, ..t }, false)
    }
}

/// The state after observing `d` `n` times in a row.
pub open spec fn observe_repeatedly(t: TrackerView, d: AgentStatus, n: nat) -> TrackerView
    decreases n,
{
    if n == 0 { t } else { debounce_step(observe_repeatedly(t, d, (n - 1) as nat), d).0 }
}

/// How many observations in a row a non-immediate status needs to be taken.
pub open spec fn observations_needed(threshold: u8) -> nat {
    if threshold < 2 { 2 } else { threshold as nat }
}

/// Tracks status changes with debouncing.
#[derive(Debug)]
pub struct DebouncedStatusTracker {
    detector: StatusDetector,
    current_status: AgentStatus,
    pending_status: Option<AgentStatus>,
    pending_count: u8,
    debounce_threshold: u8,
}

impl View for DebouncedStatusTracker {
    type V = TrackerView;

    closed spec fn view(&self) -> TrackerView {
        TrackerView {
            current: self.current_status,
            pending: self.pending_status,
            count: self.pending_count,
            threshold: self.debounce_threshold,
        }
    }
}

impl DebouncedStatusTracker {
    /// The detector this tracker uses.
    pub closed spec fn detector_view(&self) -> DetectorView {
        self.detector@
    }

    /// A tracker with the default detector, status `Unknown` and threshold 2.
    pub fn new() -> (r: Self)
        ensures
            r@ == (TrackerView { current: AgentStatus::Unknown, pending: None, count: 0, threshold: 2 }),
            r.detector_view().running == keep_valid(default_running()),
            r.detector_view().waiting == keep_valid(default_waiting()),
            r.detector_view().confirm == keep_valid(default_confirm()),
            r.detector_view().error == keep_valid(default_error()),
            r.detector_view().line_count == 50,
    {
        DebouncedStatusTracker::with_debounce(2)
    }

    /// A tracker with the default detector, status `Unknown` and the given threshold.
    pub fn with_debounce(threshold: u8) -> (r: Self)
        ensures
            r@ == (TrackerView { current: AgentStatus::Unknown, pending: None, count: 0, threshold }),
            r.detector_view().running == keep_valid(default_running()),
            r.detector_view().waiting == keep_valid(default_waiting()),
            r.detector_view().confirm == keep_valid(default_confirm()),
            r.detector_view().error == keep_valid(default_error()),
            r.detector_view().line_count == 50,
    {
        DebouncedStatusTracker {
            detector: StatusDetector::new(),
            current_status: AgentStatus::Unknown,
            pending_status: None,
            pending_count: 0,
            debounce_threshold: threshold,
        }
    }

    /// Detects from all sources and observes the result; `true` when the status changed.
    pub fn update(&mut self, process_status: ProcessStatus, shell_info: Option<ShellPhaseInfo>, content: &str) -> (r: bool)
        ensures
            (final(self)@, r) == debounce_step(old(self)@,
                detect_spec(old(self).detector_view(), process_status, shell_info, content@)),
            final(self).detector_view() == old(self).detector_view(),
    {
        let detected = self.detector.detect(process_status, shell_info, content);
        self.update_with_status(detected)
    }

    /// Detects from the text alone and observes the result; `true` when the status changed.
    pub fn update_from_text(&mut self, content: &str) -> (r: bool)
        ensures
            (final(self)@, r) == debounce_step(old(self)@,
                detect_spec(old(self).detector_view(), ProcessStatus::Unknown, None, content@)),
            final(self).detector_view() == old(self).detector_view(),
    {
        let detected = self.detector.detect(ProcessStatus::Unknown, None, content);
        self.update_with_status(detected)
    }

    /// Observes a status detected elsewhere; `true` when the status changed.
    pub fn update_with_status(&mut self, detected: AgentStatus) -> (r: bool)
        ensures
            (final(self)@, r) == debounce_step(old(self)@, detected),
            final(self).detector_view() == old(self).detector_view(),
    {
        if detected == AgentStatus::Error || detected == AgentStatus::Exited || detected == AgentStatus::WaitingConfirm {
            if self.current_status != detected {
                self.current_status = detected;
                self.pending_status = None;
                self.pending_count = 0;
                return true;
            }
            return false;
        }
        let same = match self.pending_status {
            Some(p) => p == detected,
            None => false,
        };
        if same {
            self.pending_count = self.pending_count.saturating_add(1);
            if self.pending_count >= self.debounce_threshold && self.current_status != detected {
                self.current_status = detected;
                self.pending_status = None;
                self.pending_count = 0;
                return true;
            }
        } else {
            self.pending_status = Some(detected);
            self.pending_count = 1;
        }
        false
    }

    /// The current status.
    pub fn current_status(&self) -> (r: AgentStatus)
        ensures
            r == self@.current,
    {
        self.current_status
    }

    /// The status waiting for confirmation, if any.
    pub fn pending_status(&self) -> (r: Option<AgentStatus>)
        ensures
            r == self@.pending,
    {
        self.pending_status
    }

    /// How many times in a row the pending status has been seen.
    pub fn pending_count(&self) -> (r: u8)
        ensures
            r == self@.count,
    {
        self.pending_count
    }

    /// Sets the status at once and forgets any pending one.
    pub fn force_status(&mut self, status: AgentStatus)
        ensures
            final(self)@ == (TrackerView { current: status, pending: None, count: 0, threshold: old(self)@.threshold }),
            final(self).detector_view() == old(self).detector_view(),
    {
        self.current_status = status;
        self.pending_status = None;
        self.pending_count = 0;
    }

    /// Back to `Unknown` with nothing pending.
    pub fn reset(&mut self)
        ensures
            final(self)@ == (TrackerView { current: AgentStatus::Unknown, pending: None, count: 0, threshold: old(self)@.threshold }),
            final(self).detector_view() == old(self).detector_view(),
    {
        self.current_status = AgentStatus::Unknown;
        self.pending_status = None;
        self.pending_count = 0;
    }
}

impl Default for DebouncedStatusTracker {
    fn default() -> (r: Self)
        ensures
            r@ == (TrackerView { current: AgentStatus::Unknown, pending: None, count: 0, threshold: 2 }),
    {
        DebouncedStatusTracker::new()
    }
}

/// An immediate status (error, exit, permission request) is the current status after one
/// observation, whatever came before.
pub proof fn law_immediate_status_wins(t: TrackerView, d: AgentStatus)
    requires
        is_immediate(d),
    ensures
        debounce_step(t, d).0.current == d,
        debounce_step(t, d).1 == (t.current != d),
{
}

/// Observing the status that is already current changes nothing visible: the result is
/// `false` and the current status stays.
pub proof fn law_same_status_no_change(t: TrackerView, d: AgentStatus)
    requires
        t.current == d,
    ensures
        debounce_step(t, d).1 == false,
        debounce_step(t, d).0.current == d,
{
}

/// A new non-immediate status that is not yet pending is taken after exactly
/// `observations_needed(threshold)` observations in a row, and not before.
pub proof fn law_debounce_takes_effect(t: TrackerView, d: AgentStatus, n: nat)
    requires
        !is_immediate(d),
        t.pending != Some(d),
        t.current != d,
    ensures
        n < observations_needed(t.threshold) ==> observe_repeatedly(t, d, n).current == t.current,
        n == observations_needed(t.threshold) ==> observe_repeatedly(t, d, n).current == d,
{
    lemma_pending_run(t, d, n);
}

proof fn lemma_pending_run(t: TrackerView, d: AgentStatus, n: nat)
    requires
        !is_immediate(d),
        t.pending != Some(d),
        t.current != d,
    ensures
        1 <= n < observations_needed(t.threshold) ==> ({
            let s = observe_repeatedly(t, d, n);
            &&& s.current == t.current
            &&& s.pending == Some(d)
            &&& s.count == n
            &&& s.threshold == t.threshold
        }),
        n == 0 ==> observe_repeatedly(t, d, n) == t,
        n == observations_needed(t.threshold) ==> observe_repeatedly(t, d, n).current == d,
    decreases n,
{
    if n > 0 {
        lemma_pending_run(t, d, (n - 1) as nat);
    }
}

/// What the text of a pane says, judged on its last lines with colours removed: a
/// permission request wins over everything; then an error, whatever waiting or working
/// patterns the text also holds; then waiting for input; then working; any other
/// non-blank text is idle, and blank text is unknown. With no process verdict and no
/// shell phase, full detection gives the same.
pub proof fn law_text_status_priority(v: DetectorView, process: ProcessStatus, content: Seq<char>)
    requires
        process == ProcessStatus::Running || process == ProcessStatus::Unknown,
    ensures
        ({
            let p = preprocess_spec(content, v.line_count);
            let confirm = exists|i: int| 0 <= i < v.confirm.len() && #[trigger] regex_matches(v.confirm[i], p);
            let error = exists|i: int| 0 <= i < v.error.len() && #[trigger] regex_matches(v.error[i], p);
            let waiting = exists|i: int| 0 <= i < v.waiting.len() && #[trigger] regex_matches(v.waiting[i], p);
            let running = exists|i: int| 0 <= i < v.running.len() && #[trigger] regex_matches(v.running[i], p);
            let r = text_status(v, content);
            &&& confirm ==> r == AgentStatus::WaitingConfirm
            &&& !confirm && error ==> r == AgentStatus::Error
            &&& !confirm && !error && waiting ==> r == AgentStatus::Waiting
            &&& !confirm && !error && !waiting && running ==> r == AgentStatus::Running
            &&& !confirm && !error && !waiting && !running ==> r == (if trim(p).len() > 0 { AgentStatus::Idle } else { AgentStatus::Unknown })
            &&& detect_spec(v, process, None, content) == r
        }),
{
}

/// What decides before the text: an ended process is Exited and a failed one Error,
/// whatever the shell and the text say; otherwise a running command is Running, a shell
/// at its prompt or reading input is Waiting, and output after a command that exited
/// with a non-zero code is Error. Only output after a successful command, an unknown
/// phase or no shell information leaves it to the text.
pub proof fn law_detect_rules(v: DetectorView, process: ProcessStatus, info: Option<ShellPhaseInfo>, content: Seq<char>)
    ensures
        process == ProcessStatus::Exited ==> detect_spec(v, process, info, content) == AgentStatus::Exited,
        process == ProcessStatus::Error ==> detect_spec(v, process, info, content) == AgentStatus::Error,
        process != ProcessStatus::Exited && process != ProcessStatus::Error ==> match info {
            Some(i) => {
                &&& i.phase == ShellPhase::Running ==> detect_spec(v, process, info, content) == AgentStatus::Running
                &&& (i.phase == ShellPhase::Prompt || i.phase == ShellPhase::Input) ==> detect_spec(v, process, info, content) == AgentStatus::Waiting
                &&& i.phase == ShellPhase::Output && (i.last_post_exec_exit_code matches Some(c) && c != 0)
                    ==> detect_spec(v, process, info, content) == AgentStatus::Error
                &&& (i.phase == ShellPhase::Unknown || (i.phase == ShellPhase::Output && !(i.last_post_exec_exit_code matches Some(c) && c != 0)))
                    ==> detect_spec(v, process, info, content) == text_status(v, content)
            },
            None => detect_spec(v, process, info, content) == text_status(v, content),
        },
{
}

} // verus!
