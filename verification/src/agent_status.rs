//! Agent status values, their presentation, and aggregate counts.
use vstd::prelude::*;
use crate::text::{chars_of, has_prefix, starts_with_chars, chars_equal, push_char};

verus! {

/// Current status of an AI agent running in a terminal pane.
#[derive(Debug, Clone, Copy, PartialEq, Eq, Hash, Structural)]
pub enum AgentStatus {
    /// Actively executing (green).
    Running,
    /// Waiting for user input (yellow).
    Waiting,
    /// Needs human confirmation or approval (orange).
    WaitingConfirm,
    /// Idle (gray).
    Idle,
    /// Encountered an error (red).
    Error,
    /// Process has exited (blue).
    Exited,
    /// Cannot be determined (purple).
    Unknown,
}

/// Priority of a status: higher means more important.
pub open spec fn status_priority(s: AgentStatus) -> u8 {
    match s {
        AgentStatus::Error => 6,
        AgentStatus::Exited => 5,
        AgentStatus::WaitingConfirm => 5,
        AgentStatus::Waiting => 4,
        AgentStatus::Running => 3,
        AgentStatus::Idle => 2,
        AgentStatus::Unknown => 1,
    }
}

/// Statuses that call for immediate attention.
pub open spec fn status_is_urgent(s: AgentStatus) -> bool {
    s == AgentStatus::Error || s == AgentStatus::Waiting || s == AgentStatus::WaitingConfirm
}

/// Statuses that indicate activity.
pub open spec fn status_is_active(s: AgentStatus) -> bool {
    s == AgentStatus::Running || s == AgentStatus::Waiting || s == AgentStatus::WaitingConfirm
}

/// A pane key belongs to the worktree `prefix`: it equals the prefix or continues it with `:`.
pub open spec fn key_matches_prefix(key: Seq<char>, prefix: Seq<char>) -> bool {
    key == prefix || has_prefix(key, prefix.push(':'))
}

/// The status that a scan in order keeps: among the entries whose key matches,
/// the last one of the highest priority seen so far; `None` when nothing matches.
pub open spec fn best_for_prefix(entries: Seq<(Seq<char>, AgentStatus)>, prefix: Seq<char>) -> Option<AgentStatus>
    decreases entries.len(),
{
    if entries.len() == 0 {
        None
    } else {
        let rest = best_for_prefix(entries.drop_last(), prefix);
        let last = entries.last();
        if key_matches_prefix(last.0, prefix) {
            match rest {
                None => Some(last.1),
                Some(r) => if status_priority(last.1) >= status_priority(r) { Some(last.1) } else { Some(r) },
            }
        } else {
            rest
        }
    }
}

/// The keys and statuses of a list of pane entries, as plain values.
pub open spec fn entries_view(v: Seq<(String, AgentStatus)>) -> Seq<(Seq<char>, AgentStatus)> {
    v.map_values(|e: (String, AgentStatus)| (e.0@, e.1))
}

/// Highest-priority status among the entries whose key matches `prefix`, or `Unknown`.
pub open spec fn highest_for_prefix(entries: Seq<(Seq<char>, AgentStatus)>, prefix: Seq<char>) -> AgentStatus {
    match best_for_prefix(entries, prefix) {
        Some(s) => s,
        None => AgentStatus::Unknown,
    }
}

impl AgentStatus {
    /// Color name of this status.
    pub fn color(&self) -> (r: &'static str)
        ensures
            r@ == (match *self {
                AgentStatus::Running => "green"@,
                AgentStatus::Waiting => "yellow"@,
                AgentStatus::WaitingConfirm => "orange"@,
                AgentStatus::Idle => "gray"@,
                AgentStatus::Error => "red"@,
                AgentStatus::Exited => "blue"@,
                AgentStatus::Unknown => "purple"@,
            }),
    {
        match self {
            AgentStatus::Running => "green",
            AgentStatus::Waiting => "yellow",
            AgentStatus::WaitingConfirm => "orange",
            AgentStatus::Idle => "gray",
            AgentStatus::Error => "red",
            AgentStatus::Exited => "blue",
            AgentStatus::Unknown => "purple",
        }
    }

    /// RGB color for rendering.
    pub fn rgb_color(&self) -> (r: (u8, u8, u8))
        ensures
            r == (match *self {
                AgentStatus::Running => (76u8, 175u8, 80u8),
                AgentStatus::Waiting => (255u8, 193u8, 7u8),
                AgentStatus::WaitingConfirm => (255u8, 152u8, 0u8),
                AgentStatus::Idle => (158u8, 158u8, 158u8),
                AgentStatus::Error => (244u8, 67u8, 54u8),
                AgentStatus::Exited => (33u8, 150u8, 243u8),
                AgentStatus::Unknown => (156u8, 39u8, 176u8),
            }),
    {
        match self {
            AgentStatus::Running => (76, 175, 80),
            AgentStatus::Waiting => (255, 193, 7),
            AgentStatus::WaitingConfirm => (255, 152, 0),
            AgentStatus::Idle => (158, 158, 158),
            AgentStatus::Error => (244, 67, 54),
            AgentStatus::Exited => (33, 150, 243),
            AgentStatus::Unknown => (156, 39, 176),
        }
    }

    /// Indicator glyph of this status.
    pub fn icon(&self) -> (r: &'static str)
        ensures
            r@ == (match *self {
                AgentStatus::Running => "●"@,
                AgentStatus::Waiting => "◐"@,
                AgentStatus::WaitingConfirm => "▲"@,
                AgentStatus::Idle => "○"@,
                AgentStatus::Error => "✕"@,
                AgentStatus::Exited => "✓"@,
                AgentStatus::Unknown => "?"@,
            }),
    {
        match self {
            AgentStatus::Running => "●",
            AgentStatus::Waiting => "◐",
            AgentStatus::WaitingConfirm => "▲",
            AgentStatus::Idle => "○",
            AgentStatus::Error => "✕",
            AgentStatus::Exited => "✓",
            AgentStatus::Unknown => "?",
        }
    }

    /// Human-readable description.
    pub fn display_text(&self) -> (r: &'static str)
        ensures
            r@ == (match *self {
                AgentStatus::Running => "Running"@,
                AgentStatus::Waiting => "Waiting for input"@,
                AgentStatus::WaitingConfirm => "Waiting for confirmation"@,
                AgentStatus::Idle => "Idle"@,
                AgentStatus::Error => "Error detected"@,
                AgentStatus::Exited => "Process exited"@,
                AgentStatus::Unknown => "Unknown"@,
            }),
    {
        match self {
            AgentStatus::Running => "Running",
            AgentStatus::Waiting => "Waiting for input",
            AgentStatus::WaitingConfirm => "Waiting for confirmation",
            AgentStatus::Idle => "Idle",
            AgentStatus::Error => "Error detected",
            AgentStatus::Exited => "Process exited",
            AgentStatus::Unknown => "Unknown",
        }
    }

    /// Short label for compact views.
    pub fn short_text(&self) -> (r: &'static str)
        ensures
            r@ == (match *self {
                AgentStatus::Running => "Running"@,
                AgentStatus::Waiting => "Waiting"@,
                AgentStatus::WaitingConfirm => "Confirm"@,
                AgentStatus::Idle => "Idle"@,
                AgentStatus::Error => "Error"@,
                AgentStatus::Exited => "Exited"@,
                AgentStatus::Unknown => "Unknown"@,
            }),
    {
        match self {
            AgentStatus::Running => "Running",
            AgentStatus::Waiting => "Waiting",
            AgentStatus::WaitingConfirm => "Confirm",
            AgentStatus::Idle => "Idle",
            AgentStatus::Error => "Error",
            AgentStatus::Exited => "Exited",
            AgentStatus::Unknown => "Unknown",
        }
    }

    /// Priority level (higher = more important).
    pub fn priority(&self) -> (r: u8)
        ensures
            r == status_priority(*self),
    {
        match self {
            AgentStatus::Error => 6,
            AgentStatus::Exited => 5,
            AgentStatus::WaitingConfirm => 5,
            AgentStatus::Waiting => 4,
            AgentStatus::Running => 3,
            AgentStatus::Idle => 2,
            AgentStatus::Unknown => 1,
        }
    }

    /// Whether this status should notify immediately.
    pub fn is_urgent(&self) -> (r: bool)
        ensures
            r == status_is_urgent(*self),
    {
        match self {
            AgentStatus::Error | AgentStatus::Waiting | AgentStatus::WaitingConfirm => true,
            _ => false,
        }
    }

    /// Whether this status indicates activity.
    pub fn is_active(&self) -> (r: bool)
        ensures
            r == status_is_active(*self),
    {
        match self {
            AgentStatus::Running | AgentStatus::Waiting | AgentStatus::WaitingConfirm => true,
            _ => false,
        }
    }

    /// Whether `self` has strictly higher priority than `other`.
    pub fn higher_priority_than(&self, other: &AgentStatus) -> (r: bool)
        ensures
            r == (status_priority(*self) > status_priority(*other)),
    {
        self.priority() > other.priority()
    }

    /// Highest-priority status over the pane entries whose key equals `prefix` or starts
    /// with `prefix` followed by `:`; `Unknown` when no key matches.
    pub fn highest_priority_for_prefix(statuses: &Vec<(String, AgentStatus)>, prefix: &str) -> (r: AgentStatus)
        ensures
            r == highest_for_prefix(entries_view(statuses@), prefix@),
    {
        let p = chars_of(prefix);
        let mut colon = chars_of(prefix);
        colon.push(':');
        let mut best: Option<AgentStatus> = None;
        let mut i: usize = 0;
        while i < statuses.len()
            invariant
                i <= statuses.len(),
                p@ == prefix@,
                colon@ == prefix@.push(':'),
                best == best_for_prefix(entries_view(statuses@).take(i as int), prefix@),
            decreases statuses.len() - i,
        {
            let key = chars_of(statuses[i].0.as_str());
            let st = statuses[i].1;
            let m = chars_equal(&key, &p) || starts_with_chars(&key, &colon);
            proof {
                let ev = entries_view(statuses@);
                assert(ev.take(i + 1).drop_last() =~= ev.take(i as int));
                assert(ev.take(i + 1).last() == ev[i as int]);
            }
            if m {
                best = match best {
                    None => Some(st),
                    Some(b) => if st.priority() >= b.priority() { Some(st) } else { Some(b) },
                };
            }
            i = i + 1;
        }
        proof {
            assert(entries_view(statuses@).take(statuses@.len() as int) =~= entries_view(statuses@));
        }
        match best {
            Some(s) => s,
            None => AgentStatus::Unknown,
        }
    }
}

impl Default for AgentStatus {
    fn default() -> (r: Self)
        ensures
            r == AgentStatus::Unknown,
    {
        AgentStatus::Unknown
    }
}


/// Counts of statuses, for overview display.
#[derive(Debug, Default, Clone)]
pub struct StatusCounts {
    pub running: usize,
    pub waiting: usize,
    pub waiting_confirm: usize,
    pub idle: usize,
    pub error: usize,
    pub exited: usize,
    pub unknown: usize,
}

/// The counter that belongs to `status`.
pub open spec fn count_for(c: StatusCounts, status: AgentStatus) -> usize {
    match status {
        AgentStatus::Running => c.running,
        AgentStatus::Waiting => c.waiting,
        AgentStatus::WaitingConfirm => c.waiting_confirm,
        AgentStatus::Idle => c.idle,
        AgentStatus::Error => c.error,
        AgentStatus::Exited => c.exited,
        AgentStatus::Unknown => c.unknown,
    }
}

/// Sum of all counters.
pub open spec fn counts_total(c: StatusCounts) -> int {
    c.running + c.waiting + c.waiting_confirm + c.idle + c.error + c.exited + c.unknown
}

/// `b` equals `a` except that the counter of `status` is `v`.
pub open spec fn counts_with(a: StatusCounts, status: AgentStatus, v: usize) -> StatusCounts {
    match status {
        AgentStatus::Running => StatusCounts { running: v, ..a },
        AgentStatus::Waiting => StatusCounts { waiting: v, ..a },
        AgentStatus::WaitingConfirm => StatusCounts { waiting_confirm: v, ..a },
        AgentStatus::Idle => StatusCounts { idle: v, ..a },
        AgentStatus::Error => StatusCounts { error: v, ..a },
        AgentStatus::Exited => StatusCounts { exited: v, ..a },
        AgentStatus::Unknown => StatusCounts { unknown: v, ..a },
    }
}

/// All counters are zero.
pub open spec fn counts_empty() -> StatusCounts {
    StatusCounts { running: 0, waiting: 0, waiting_confirm: 0, idle: 0, error: 0, exited: 0, unknown: 0 }
}

/// Number of entries of `statuses` equal to `s`.
pub open spec fn occurrences(statuses: Seq<AgentStatus>, s: AgentStatus) -> nat
    decreases statuses.len(),
{
    if statuses.len() == 0 {
        0
    } else {
        occurrences(statuses.drop_last(), s) + if statuses.last() == s { 1nat } else { 0nat }
    }
}

/// The statuses of a list of pane entries, in order.
pub open spec fn statuses_of(entries: Seq<(Seq<char>, AgentStatus)>) -> Seq<AgentStatus> {
    entries.map_values(|e: (Seq<char>, AgentStatus)| e.1)
}

/// Index of the first `c` in `s` at or after `from`, if any.
pub open spec fn find_char_from(s: Seq<char>, c: char, from: int) -> Option<int>
    decreases s.len() - from,
{
    if from < 0 || from >= s.len() {
        None
    } else if s[from] == c {
        Some(from)
    } else {
        find_char_from(s, c, from + 1)
    }
}

/// Worktree part of a pane key: `"local:/p"` for both `"local:/p"` and `"local:/p:split-0"`;
/// a key without `:` is its own worktree.
pub open spec fn worktree_prefix(key: Seq<char>) -> Seq<char> {
    match find_char_from(key, ':', 0) {
        None => key,
        Some(i) => match find_char_from(key, ':', i + 1) {
            None => key,
            Some(j) => key.subrange(0, j),
        },
    }
}

/// Distinct worktree prefixes of the keys, in order of first appearance.
pub open spec fn distinct_prefixes(entries: Seq<(Seq<char>, AgentStatus)>) -> Seq<Seq<char>>
    decreases entries.len(),
{
    if entries.len() == 0 {
        Seq::empty()
    } else {
        let rest = distinct_prefixes(entries.drop_last());
        let p = worktree_prefix(entries.last().0);
        if rest.contains(p) { rest } else { rest.push(p) }
    }
}

/// The worktree status of each distinct worktree prefix.
pub open spec fn worktree_statuses(entries: Seq<(Seq<char>, AgentStatus)>) -> Seq<AgentStatus> {
    distinct_prefixes(entries).map_values(|p: Seq<char>| highest_for_prefix(entries, p))
}

/// Counters holding, for each status, its number of occurrences in `statuses`.
pub open spec fn tally(statuses: Seq<AgentStatus>) -> StatusCounts {
    StatusCounts {
        running: occurrences(statuses, AgentStatus::Running) as usize,
        waiting: occurrences(statuses, AgentStatus::Waiting) as usize,
        waiting_confirm: occurrences(statuses, AgentStatus::WaitingConfirm) as usize,
        idle: occurrences(statuses, AgentStatus::Idle) as usize,
        error: occurrences(statuses, AgentStatus::Error) as usize,
        exited: occurrences(statuses, AgentStatus::Exited) as usize,
        unknown: occurrences(statuses, AgentStatus::Unknown) as usize,
    }
}

/// The status shown for a set of counts: the nonzero one of highest priority, where
/// `WaitingConfirm` wins the tie with `Exited`.
pub open spec fn prevalent(c: StatusCounts) -> Option<AgentStatus> {
    if c.error > 0 {
        Some(AgentStatus::Error)
    } else if c.waiting_confirm > 0 {
        Some(AgentStatus::WaitingConfirm)
    } else if c.exited > 0 {
        Some(AgentStatus::Exited)
    } else if c.waiting > 0 {
        Some(AgentStatus::Waiting)
    } else if c.running > 0 {
        Some(AgentStatus::Running)
    } else if c.idle > 0 {
        Some(AgentStatus::Idle)
    } else if c.unknown > 0 {
        Some(AgentStatus::Unknown)
    } else {
        None
    }
}

proof fn lemma_occurrences_le(statuses: Seq<AgentStatus>, s: AgentStatus)
    ensures
        occurrences(statuses, s) <= statuses.len(),
    decreases statuses.len(),
{
    if statuses.len() > 0 {
        lemma_occurrences_le(statuses.drop_last(), s);
    }
}

/// The occurrences of all seven statuses add up to the length of the sequence.
pub proof fn lemma_occurrences_sum(statuses: Seq<AgentStatus>)
    ensures
        occurrences(statuses, AgentStatus::Running) + occurrences(statuses, AgentStatus::Waiting)
            + occurrences(statuses, AgentStatus::WaitingConfirm) + occurrences(statuses, AgentStatus::Idle)
            + occurrences(statuses, AgentStatus::Error) + occurrences(statuses, AgentStatus::Exited)
            + occurrences(statuses, AgentStatus::Unknown) == statuses.len(),
    decreases statuses.len(),
{
    if statuses.len() > 0 {
        lemma_occurrences_sum(statuses.drop_last());
    }
}

impl StatusCounts {
    /// Empty counts.
    pub fn new() -> (r: Self)
        ensures
            r == counts_empty(),
    {
        StatusCounts { running: 0, waiting: 0, waiting_confirm: 0, idle: 0, error: 0, exited: 0, unknown: 0 }
    }

    /// Adds one to the counter of `status`.
    pub fn increment(&mut self, status: &AgentStatus)
        requires
            count_for(*old(self), *status) < usize::MAX,
        ensures
            *final(self) == counts_with(*old(self), *status, (count_for(*old(self), *status) + 1) as usize),
    {
        match status {
            AgentStatus::Running => self.running = self.running + 1,
            AgentStatus::Waiting => self.waiting = self.waiting + 1,
            AgentStatus::WaitingConfirm => self.waiting_confirm = self.waiting_confirm + 1,
            AgentStatus::Idle => self.idle = self.idle + 1,
            AgentStatus::Error => self.error = self.error + 1,
            AgentStatus::Exited => self.exited = self.exited + 1,
            AgentStatus::Unknown => self.unknown = self.unknown + 1,
        }
    }

    /// Subtracts one from the counter of `status`, stopping at zero.
    pub fn decrement(&mut self, status: &AgentStatus)
        ensures
            *final(self) == counts_with(*old(self), *status,
                if count_for(*old(self), *status) == 0 { 0usize } else { (count_for(*old(self), *status) - 1) as usize }),
    {
        match status {
            AgentStatus::Running => self.running = self.running.saturating_sub(1),
            AgentStatus::Waiting => self.waiting = self.waiting.saturating_sub(1),
            AgentStatus::WaitingConfirm => self.waiting_confirm = self.waiting_confirm.saturating_sub(1),
            AgentStatus::Idle => self.idle = self.idle.saturating_sub(1),
            AgentStatus::Error => self.error = self.error.saturating_sub(1),
            AgentStatus::Exited => self.exited = self.exited.saturating_sub(1),
            AgentStatus::Unknown => self.unknown = self.unknown.saturating_sub(1),
        }
    }

    /// Sum of all counters.
    pub fn total(&self) -> (r: usize)
        requires
            counts_total(*self) <= usize::MAX,
        ensures
            r == counts_total(*self),
    {
        self.running + self.waiting + self.waiting_confirm + self.idle + self.error + self.exited + self.unknown
    }

    /// Number of urgent statuses (Error + Waiting + WaitingConfirm).
    pub fn urgent_count(&self) -> (r: usize)
        requires
            self.error + self.waiting + self.waiting_confirm <= usize::MAX,
        ensures
            r == self.error + self.waiting + self.waiting_confirm,
    {
        self.error + self.waiting + self.waiting_confirm
    }

    /// Whether any error is counted.
    pub fn has_errors(&self) -> (r: bool)
        ensures
            r == (self.error > 0),
    {
        self.error > 0
    }

    /// Whether anything waits for input or confirmation.
    pub fn has_waiting(&self) -> (r: bool)
        ensures
            r == (self.waiting > 0 || self.waiting_confirm > 0),
    {
        self.waiting > 0 || self.waiting_confirm > 0
    }

    /// Counts every pane entry by its status.
    pub fn from_pane_statuses(statuses: &Vec<(String, AgentStatus)>) -> (r: Self)
        ensures
            r == tally(statuses_of(entries_view(statuses@))),
    {
        let ghost sts = statuses_of(entries_view(statuses@));
        let mut counts = Self::new();
        let mut i: usize = 0;
        while i < statuses.len()
            invariant
                i <= statuses.len(),
                sts == statuses_of(entries_view(statuses@)),
                sts.len() == statuses.len(),
                counts == tally(sts.take(i as int)),
            decreases statuses.len() - i,
        {
            let st = statuses[i].1;
            proof {
                assert(sts.take(i + 1).drop_last() =~= sts.take(i as int));
                assert(sts[i as int] == st);
                lemma_occurrences_le(sts.take(i as int), st);
            }
            counts.increment(&st);
            i = i + 1;
        }
        proof {
            assert(sts.take(statuses@.len() as int) =~= sts);
        }
        counts
    }

    /// Counts each worktree once, by the highest-priority status of its panes.
    pub fn from_pane_statuses_per_worktree(statuses: &Vec<(String, AgentStatus)>) -> (r: Self)
        ensures
            r == tally(worktree_statuses(entries_view(statuses@))),
    {
        let ghost ev = entries_view(statuses@);
        let prefixes = distinct_worktree_prefixes(statuses);
        let mut counts = Self::new();
        let mut i: usize = 0;
        while i < prefixes.len()
            invariant
                i <= prefixes.len(),
                ev == entries_view(statuses@),
                prefixes@.map_values(|s: String| s@) == distinct_prefixes(ev),
                counts == tally(worktree_statuses(ev).take(i as int)),
            decreases prefixes.len() - i,
        {
            let st = AgentStatus::highest_priority_for_prefix(statuses, prefixes[i].as_str());
            proof {
                let ws = worktree_statuses(ev);
                assert(prefixes@.map_values(|s: String| s@)[i as int] == prefixes@[i as int]@);
                assert(ws[i as int] == st);
                assert(ws.take(i + 1).drop_last() =~= ws.take(i as int));
                lemma_occurrences_le(ws.take(i as int), st);
            }
            counts.increment(&st);
            i = i + 1;
        }
        proof {
            let ws = worktree_statuses(ev);
            assert(ws.take(ws.len() as int) =~= ws);
        }
        counts
    }

    /// The status to show for these counts (see [`prevalent`]); `None` when all are zero.
    pub fn most_prevalent(&self) -> (r: Option<AgentStatus>)
        ensures
            r == prevalent(*self),
    {
        if self.error > 0 {
            Some(AgentStatus::Error)
        } else if self.waiting_confirm > 0 {
            Some(AgentStatus::WaitingConfirm)
        } else if self.exited > 0 {
            Some(AgentStatus::Exited)
        } else if self.waiting > 0 {
            Some(AgentStatus::Waiting)
        } else if self.running > 0 {
            Some(AgentStatus::Running)
        } else if self.idle > 0 {
            Some(AgentStatus::Idle)
        } else if self.unknown > 0 {
            Some(AgentStatus::Unknown)
        } else {
            None
        }
    }
}

/// Counting every pane entry by status accounts for each entry exactly once:
/// the counters add up to the number of entries.
pub proof fn law_tally_total(statuses: Seq<AgentStatus>)
    requires
        statuses.len() <= usize::MAX,
    ensures
        counts_total(tally(statuses)) == statuses.len(),
{
    lemma_occurrences_sum(statuses);
    lemma_occurrences_le(statuses, AgentStatus::Running);
    lemma_occurrences_le(statuses, AgentStatus::Waiting);
    lemma_occurrences_le(statuses, AgentStatus::WaitingConfirm);
    lemma_occurrences_le(statuses, AgentStatus::Idle);
    lemma_occurrences_le(statuses, AgentStatus::Error);
    lemma_occurrences_le(statuses, AgentStatus::Exited);
    lemma_occurrences_le(statuses, AgentStatus::Unknown);
}

/// Counting per worktree counts each distinct worktree exactly once.
pub proof fn law_per_worktree_total(entries: Seq<(Seq<char>, AgentStatus)>)
    requires
        entries.len() <= usize::MAX,
    ensures
        counts_total(tally(worktree_statuses(entries))) == distinct_prefixes(entries).len(),
        distinct_prefixes(entries).len() <= entries.len(),
{
    lemma_distinct_prefixes_len(entries);
    law_tally_total(worktree_statuses(entries));
}

proof fn lemma_distinct_prefixes_len(entries: Seq<(Seq<char>, AgentStatus)>)
    ensures
        distinct_prefixes(entries).len() <= entries.len(),
    decreases entries.len(),
{
    if entries.len() > 0 {
        lemma_distinct_prefixes_len(entries.drop_last());
    }
}

proof fn lemma_distinct_prefixes(entries: Seq<(Seq<char>, AgentStatus)>)
    ensures
        distinct_prefixes(entries).no_duplicates(),
        forall|p: Seq<char>| #[trigger] distinct_prefixes(entries).contains(p)
            <==> exists|i: int| 0 <= i < entries.len() && worktree_prefix(#[trigger] entries[i].0) == p,
    decreases entries.len(),
{
    if entries.len() > 0 {
        let prev = entries.drop_last();
        lemma_distinct_prefixes(prev);
        let rest = distinct_prefixes(prev);
        let q = worktree_prefix(entries.last().0);
        assert forall|p: Seq<char>| #[trigger] distinct_prefixes(entries).contains(p)
            implies exists|i: int| 0 <= i < entries.len() && worktree_prefix(#[trigger] entries[i].0) == p by {
            if rest.contains(p) {
                let i = choose|i: int| 0 <= i < prev.len() && worktree_prefix(#[trigger] prev[i].0) == p;
                assert(entries[i] == prev[i]);
            } else {
                assert(p == q);
                assert(entries[entries.len() - 1] == entries.last());
            }
        }
        assert forall|p: Seq<char>| (exists|i: int| 0 <= i < entries.len() && worktree_prefix(#[trigger] entries[i].0) == p)
            implies #[trigger] distinct_prefixes(entries).contains(p) by {
            let i = choose|i: int| 0 <= i < entries.len() && worktree_prefix(#[trigger] entries[i].0) == p;
            if i < entries.len() - 1 {
                assert(prev[i] == entries[i]);
                assert(rest.contains(p));
                if !rest.contains(q) {
                    let j = choose|j: int| 0 <= j < rest.len() && rest[j] == p;
                    assert(rest.push(q)[j] == p);
                }
            } else {
                if !rest.contains(q) {
                    assert(rest.push(q)[rest.len() as int] == q);
                }
            }
        }
    }
}

proof fn lemma_occurrences_of_map(ps: Seq<Seq<char>>, entries: Seq<(Seq<char>, AgentStatus)>, s: AgentStatus)
    ensures
        occurrences(ps.map_values(|p: Seq<char>| highest_for_prefix(entries, p)), s)
            == ps.filter(|p: Seq<char>| highest_for_prefix(entries, p) == s).len(),
    decreases ps.len(),
{
    reveal(Seq::filter);
    if ps.len() > 0 {
        lemma_occurrences_of_map(ps.drop_last(), entries, s);
        let f = |p: Seq<char>| highest_for_prefix(entries, p);
        assert(ps.map_values(f).drop_last() =~= ps.drop_last().map_values(f));
    } else {
        assert(ps.map_values(|p: Seq<char>| highest_for_prefix(entries, p)).len() == 0);
    }
}

/// Counting per worktree: the worktrees are the distinct prefixes of the pane keys, each
/// listed once, and the count of each status is the number of worktrees whose highest
/// pane status it is.
pub proof fn law_per_worktree_counts(entries: Seq<(Seq<char>, AgentStatus)>, s: AgentStatus)
    requires
        entries.len() <= usize::MAX,
    ensures
        distinct_prefixes(entries).no_duplicates(),
        forall|p: Seq<char>| #[trigger] distinct_prefixes(entries).contains(p)
            <==> exists|i: int| 0 <= i < entries.len() && worktree_prefix(#[trigger] entries[i].0) == p,
        count_for(tally(worktree_statuses(entries)), s)
            == distinct_prefixes(entries).filter(|p: Seq<char>| highest_for_prefix(entries, p) == s).len(),
{
    lemma_distinct_prefixes(entries);
    lemma_distinct_prefixes_len(entries);
    let ws = worktree_statuses(entries);
    lemma_occurrences_of_map(distinct_prefixes(entries), entries, s);
    lemma_occurrences_le(ws, s);
}

/// Decrementing a status right after incrementing it restores the counts.
pub proof fn law_increment_decrement(c: StatusCounts, status: AgentStatus)
    requires
        count_for(c, status) < usize::MAX,
    ensures
        ({
            let up = counts_with(c, status, (count_for(c, status) + 1) as usize);
            counts_with(up, status, (count_for(up, status) - 1) as usize) == c
        }),
{
}

/// The worktree status is the priority maximum over the panes that belong to the
/// worktree: no matching pane has a higher priority, and unless no pane matches,
/// it is the status of some matching pane. Panes of other worktrees play no part.
pub proof fn law_highest_for_prefix_is_max(entries: Seq<(Seq<char>, AgentStatus)>, prefix: Seq<char>)
    ensures
        forall|i: int| 0 <= i < entries.len() && key_matches_prefix(#[trigger] entries[i].0, prefix)
            ==> status_priority(entries[i].1) <= status_priority(highest_for_prefix(entries, prefix)),
        best_for_prefix(entries, prefix) is None <==> (forall|i: int| 0 <= i < entries.len()
            ==> !key_matches_prefix(#[trigger] entries[i].0, prefix)),
        best_for_prefix(entries, prefix) is Some ==> exists|i: int| 0 <= i < entries.len()
            && key_matches_prefix(#[trigger] entries[i].0, prefix) && entries[i].1 == highest_for_prefix(entries, prefix),
    decreases entries.len(),
{
    if entries.len() > 0 {
        let init = entries.drop_last();
        law_highest_for_prefix_is_max(init, prefix);
        let n = entries.len() - 1;
        let last = entries[n];
        assert(entries.last() == last);
        assert forall|i: int| 0 <= i < init.len() implies #[trigger] init[i] == entries[i] by {}
        let bi = best_for_prefix(init, prefix);
        let be = best_for_prefix(entries, prefix);
        assert(be == if key_matches_prefix(last.0, prefix) {
            match bi {
                None => Some(last.1),
                Some(r) => if status_priority(last.1) >= status_priority(r) { Some(last.1) } else { Some(r) },
            }
        } else {
            bi
        });
        assert forall|i: int| 0 <= i < entries.len() && key_matches_prefix(#[trigger] entries[i].0, prefix)
            implies status_priority(entries[i].1) <= status_priority(highest_for_prefix(entries, prefix)) by {
            if i < n {
                assert(init[i] == entries[i]);
                assert(key_matches_prefix(init[i].0, prefix));
            }
        }
        if be is None {
            assert forall|i: int| 0 <= i < entries.len() implies !key_matches_prefix(#[trigger] entries[i].0, prefix) by {
                if i < n {
                    assert(init[i] == entries[i]);
                }
            }
        } else {
            if key_matches_prefix(last.0, prefix) && be == Some(last.1) {
                assert(key_matches_prefix(entries[n].0, prefix) && entries[n].1 == highest_for_prefix(entries, prefix));
            } else {
                let k = choose|i: int| 0 <= i < init.len()
                    && key_matches_prefix(#[trigger] init[i].0, prefix) && init[i].1 == highest_for_prefix(init, prefix);
                assert(entries[k] == init[k]);
                assert(key_matches_prefix(entries[k].0, prefix) && entries[k].1 == highest_for_prefix(entries, prefix));
            }
        }
    }
}

/// Index of the first `c` at or after `from`.
fn find_char_exec(s: &Vec<char>, c: char, from: usize) -> (r: Option<usize>)
    requires
        from <= s.len(),
    ensures
        match r {
            Some(i) => find_char_from(s@, c, from as int) == Some(i as int) && from <= i < s.len(),
            None => find_char_from(s@, c, from as int) is None,
        },
    decreases s.len() - from,
{
    if from >= s.len() {
        None
    } else if s[from] == c {
        Some(from)
    } else {
        find_char_exec(s, c, from + 1)
    }
}

/// Worktree prefix of one pane key.
fn worktree_prefix_exec(key: &str) -> (r: Vec<char>)
    ensures
        r@ == worktree_prefix(key@),
{
    let k = chars_of(key);
    match find_char_exec(&k, ':', 0) {
        None => k,
        Some(i) => match find_char_exec(&k, ':', i + 1) {
            None => k,
            Some(j) => {
                let mut out: Vec<char> = Vec::new();
                let mut t: usize = 0;
                while t < j
                    invariant
                        t <= j,
                        j <= k.len(),
                        out@ == k@.subrange(0, t as int),
                    decreases j - t,
                {
                    out.push(k[t]);
                    proof { assert(out@ =~= k@.subrange(0, t + 1)); }
                    t = t + 1;
                }
                out
            },
        },
    }
}

/// Distinct worktree prefixes of the entries' keys, in order of first appearance.
fn distinct_worktree_prefixes(statuses: &Vec<(String, AgentStatus)>) -> (r: Vec<String>)
    ensures
        r@.map_values(|s: String| s@) == distinct_prefixes(entries_view(statuses@)),
{
    let ghost ev = entries_view(statuses@);
    let mut out: Vec<String> = Vec::new();
    let mut seen: Vec<Vec<char>> = Vec::new();
    let mut i: usize = 0;
    while i < statuses.len()
        invariant
            i <= statuses.len(),
            ev == entries_view(statuses@),
            seen.len() == out.len(),
            forall|k: int| 0 <= k < seen.len() ==> #[trigger] seen@[k]@ == out@[k]@,
            out@.map_values(|s: String| s@) == distinct_prefixes(ev.take(i as int)),
        decreases statuses.len() - i,
    {
        let p = worktree_prefix_exec(statuses[i].0.as_str());
        let ghost rest = distinct_prefixes(ev.take(i as int));
        proof {
            assert(ev.take(i + 1).drop_last() =~= ev.take(i as int));
            assert(ev.take(i + 1).last() == ev[i as int]);
        }
        let mut found = false;
        let mut t: usize = 0;
        while t < seen.len()
            invariant
                t <= seen.len(),
                seen.len() == out.len(),
                forall|k: int| 0 <= k < seen.len() ==> #[trigger] seen@[k]@ == out@[k]@,
                out@.map_values(|s: String| s@) == rest,
                found <==> exists|k: int| 0 <= k < t && rest[k] == p@,
            decreases seen.len() - t,
        {
            proof { assert(out@.map_values(|s: String| s@)[t as int] == out@[t as int]@); }
            if chars_equal(&seen[t], &p) {
                found = true;
            }
            t = t + 1;
        }
        proof {
            if found {
                let k = choose|k: int| 0 <= k < t && rest[k] == p@;
                assert(rest.contains(p@));
            } else {
                assert(!rest.contains(p@));
            }
        }
        if !found {
            let s = crate::text::string_from_chars(&p);
            out.push(s);
            seen.push(p);
            proof {
                assert(out@.map_values(|s: String| s@) =~= rest.push(p@));
            }
        }
        i = i + 1;
    }
    proof {
        assert(ev.take(statuses@.len() as int) =~= ev);
    }
    out
}

/// The ranking of statuses: an error first; a permission request level with an ended
/// agent and above waiting for input, working, idle and unknown, in that order. So a
/// worktree with an erroring pane reports the error, and one with a pane asking for
/// permission and no erroring or ended pane reports the permission request, whatever
/// its other panes do.
pub proof fn law_status_ranking(entries: Seq<(Seq<char>, AgentStatus)>, prefix: Seq<char>)
    ensures
        status_priority(AgentStatus::Error) > status_priority(AgentStatus::Exited),
        status_priority(AgentStatus::Exited) == status_priority(AgentStatus::WaitingConfirm),
        status_priority(AgentStatus::WaitingConfirm) > status_priority(AgentStatus::Waiting),
        status_priority(AgentStatus::Waiting) > status_priority(AgentStatus::Running),
        status_priority(AgentStatus::Running) > status_priority(AgentStatus::Idle),
        status_priority(AgentStatus::Idle) > status_priority(AgentStatus::Unknown),
        (exists|i: int| 0 <= i < entries.len() && key_matches_prefix(#[trigger] entries[i].0, prefix) && entries[i].1 == AgentStatus::Error)
            ==> highest_for_prefix(entries, prefix) == AgentStatus::Error,
        (exists|i: int| 0 <= i < entries.len() && key_matches_prefix(#[trigger] entries[i].0, prefix) && entries[i].1 == AgentStatus::WaitingConfirm)
            && (forall|i: int| 0 <= i < entries.len() && key_matches_prefix(#[trigger] entries[i].0, prefix)
                ==> entries[i].1 != AgentStatus::Error && entries[i].1 != AgentStatus::Exited)
            ==> highest_for_prefix(entries, prefix) == AgentStatus::WaitingConfirm,
{
    law_highest_for_prefix_is_max(entries, prefix);
    if exists|i: int| 0 <= i < entries.len() && key_matches_prefix(#[trigger] entries[i].0, prefix) {
        assert(best_for_prefix(entries, prefix) is Some);
    }
}

} // verus!
