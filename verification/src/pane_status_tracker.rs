//! Debounced status of many panes at once, with a minimum time between updates of the
//! same pane.
use vstd::prelude::*;
use crate::agent_status::{AgentStatus, status_is_urgent};
use crate::clock::now_millis;
use crate::status_detector::{DebouncedStatusTracker, DetectorView, TrackerView, debounce_step, detect_spec,
    ProcessStatus, keep_valid, default_running, default_waiting, default_confirm, default_error};
use crate::text::str_equal;

verus! {

/// The detector that every pane tracker uses: the default patterns over 50 lines.
pub open spec fn default_detector_view() -> DetectorView {
    DetectorView {
        running: keep_valid(default_running()),
        waiting: keep_valid(default_waiting()),
        confirm: keep_valid(default_confirm()),
        error: keep_valid(default_error()),
        line_count: 50,
    }
}

/// Whether `d` is the default detector.
pub open spec fn default_detector(d: DetectorView) -> bool {
    d == default_detector_view()
}

/// A fresh tracker with the given threshold.
pub open spec fn fresh_tracker(threshold: u8) -> TrackerView {
    TrackerView { current: AgentStatus::Unknown, pending: None, count: 0, threshold }
}

/// Position of `k` in `ks`, which holds no key twice.
pub open spec fn key_pos(ks: Seq<Seq<char>>, k: Seq<char>) -> Option<int> {
    if ks.contains(k) { Some(choose|i: int| 0 <= i < ks.len() && ks[i] == k) } else { None }
}

/// A pane and its tracker as plain values.
pub struct PaneEntry {
    pub pane: Seq<char>,
    pub tracker: TrackerView,
}

/// Pane entries as plain values.
pub open spec fn entries(v: Seq<(String, DebouncedStatusTracker)>) -> Seq<PaneEntry> {
    v.map_values(|e: (String, DebouncedStatusTracker)| PaneEntry { pane: e.0@, tracker: e.1@ })
}

/// The panes of the entries.
pub open spec fn entry_keys(v: Seq<PaneEntry>) -> Seq<Seq<char>> {
    v.map_values(|e: PaneEntry| e.pane)
}

/// Last update times as plain values.
pub open spec fn times(v: Seq<(String, u64)>) -> Seq<(Seq<char>, u64)> {
    v.map_values(|e: (String, u64)| (e.0@, e.1))
}

/// The panes of the update times.
pub open spec fn time_keys(v: Seq<(Seq<char>, u64)>) -> Seq<Seq<char>> {
    v.map_values(|e: (Seq<char>, u64)| e.0)
}

/// The update times with `k` set to `t`.
pub open spec fn set_time(v: Seq<(Seq<char>, u64)>, k: Seq<char>, t: u64) -> Seq<(Seq<char>, u64)> {
    match key_pos(time_keys(v), k) {
        Some(j) => v.update(j, (k, t)),
        None => v.push((k, t)),
    }
}

/// The entries with the tracker of `k` set to `t`.
pub open spec fn set_entry(v: Seq<PaneEntry>, k: Seq<char>, t: TrackerView) -> Seq<PaneEntry> {
    match key_pos(entry_keys(v), k) {
        Some(i) => v.update(i, PaneEntry { pane: k, tracker: t }),
        None => v.push(PaneEntry { pane: k, tracker: t }),
    }
}

/// The tracker of `k`, or a fresh one.
pub open spec fn tracker_of(v: Seq<PaneEntry>, k: Seq<char>, threshold: u8) -> TrackerView {
    match key_pos(entry_keys(v), k) {
        Some(i) => v[i].tracker,
        None => fresh_tracker(threshold),
    }
}

/// Milliseconds from `t` to `now` (0 where `now` is earlier).
pub open spec fn age(t: u64, now: u64) -> u64 {
    if now >= t { (now - t) as u64 } else { 0 }
}

/// The tracker of many panes as plain values.
pub struct PaneTrackerView {
    pub panes: Seq<PaneEntry>,
    pub last_updates: Seq<(Seq<char>, u64)>,
    pub min_update_interval: u64,
    pub debounce_threshold: u8,
}

/// Tracks the status of many panes.
#[derive(Debug)]
pub struct PaneStatusTracker {
    pane_trackers: Vec<(String, DebouncedStatusTracker)>,
    last_updates: Vec<(String, u64)>,
    min_update_interval: u64,
    debounce_threshold: u8,
}

impl View for PaneStatusTracker {
    type V = PaneTrackerView;

    closed spec fn view(&self) -> PaneTrackerView {
        PaneTrackerView {
            panes: entries(self.pane_trackers@),
            last_updates: times(self.last_updates@),
            min_update_interval: self.min_update_interval,
            debounce_threshold: self.debounce_threshold,
        }
    }
}

/// The state after an update of pane `k` with `content` at time `now`, and whether its
/// status changed: nothing happens within the minimum interval since the pane's last
/// update; otherwise its tracker (a fresh one for a new pane) observes the status
/// detected from the text, and a change records the time.
pub open spec fn update_spec(s: PaneTrackerView, k: Seq<char>, content: Seq<char>, now: u64) -> (PaneTrackerView, bool) {
    let recent = match key_pos(time_keys(s.last_updates), k) {
        Some(j) => age(s.last_updates[j].1, now) < s.min_update_interval,
        None => false,
    };
    if recent {
        (s, false)
    } else {
        let step = debounce_step(tracker_of(s.panes, k, s.debounce_threshold),
            detect_spec(default_detector_view(), ProcessStatus::Unknown, None, content));
        (PaneTrackerView {
            panes: set_entry(s.panes, k, step.0),
            last_updates: if step.1 { set_time(s.last_updates, k, now) } else { s.last_updates },
            ..s
        }, step.1)
    }
}

proof fn lemma_key_pos_found(ks: Seq<Seq<char>>, k: Seq<char>, i: int)
    requires
        ks.no_duplicates(),
        0 <= i < ks.len(),
        ks[i] == k,
    ensures
        key_pos(ks, k) == Some(i),
{
    assert(ks.contains(k));
    let j = choose|j: int| 0 <= j < ks.len() && ks[j] == k;
    assert(ks[j] == ks[i]);
}

fn find_pane(v: &Vec<(String, DebouncedStatusTracker)>, k: &str) -> (r: Option<usize>)
    requires
        entry_keys(entries(v@)).no_duplicates(),
    ensures
        match r {
            Some(i) => i < v@.len() && key_pos(entry_keys(entries(v@)), k@) == Some(i as int),
            None => key_pos(entry_keys(entries(v@)), k@) is None,
        },
{
    let ghost ks = entry_keys(entries(v@));
    let mut i: usize = 0;
    while i < v.len()
        invariant
            i <= v.len(),
            ks == entry_keys(entries(v@)),
            ks.no_duplicates(),
            forall|j: int| 0 <= j < i ==> ks[j] != k@,
        decreases v.len() - i,
    {
        if str_equal(v[i].0.as_str(), k) {
            proof { lemma_key_pos_found(ks, k@, i as int); }
            return Some(i);
        }
        i = i + 1;
    }
    None
}

fn find_time(v: &Vec<(String, u64)>, k: &str) -> (r: Option<usize>)
    requires
        time_keys(times(v@)).no_duplicates(),
    ensures
        match r {
            Some(i) => i < v@.len() && key_pos(time_keys(times(v@)), k@) == Some(i as int),
            None => key_pos(time_keys(times(v@)), k@) is None,
        },
{
    let ghost ks = time_keys(times(v@));
    let mut i: usize = 0;
    while i < v.len()
        invariant
            i <= v.len(),
            ks == time_keys(times(v@)),
            ks.no_duplicates(),
            forall|j: int| 0 <= j < i ==> ks[j] != k@,
        decreases v.len() - i,
    {
        if str_equal(v[i].0.as_str(), k) {
            proof { lemma_key_pos_found(ks, k@, i as int); }
            return Some(i);
        }
        i = i + 1;
    }
    None
}

proof fn lemma_push_unique(ks: Seq<Seq<char>>, k: Seq<char>)
    requires
        ks.no_duplicates(),
        key_pos(ks, k) is None,
    ensures
        ks.push(k).no_duplicates(),
{
    assert forall|a: int, b: int| 0 <= a < ks.push(k).len() && 0 <= b < ks.push(k).len() && a != b
        implies ks.push(k)[a] != ks.push(k)[b] by {
        if a == ks.len() {
            assert(!ks.contains(k));
            assert(ks[b] != k);
        } else if b == ks.len() {
            assert(!ks.contains(k));
            assert(ks[a] != k);
        }
    }
}

impl PaneStatusTracker {
    /// No pane occurs twice, and every tracker uses the default detector.
    pub closed spec fn wf(&self) -> bool {
        &&& entry_keys(entries(self.pane_trackers@)).no_duplicates()
        &&& time_keys(times(self.last_updates@)).no_duplicates()
        &&& forall|i: int| 0 <= i < self.pane_trackers@.len() ==> default_detector((#[trigger] self.pane_trackers@[i]).1.detector_view())
    }

    /// No panes, 100 milliseconds between updates, threshold 2.
    pub fn new() -> (r: Self)
        ensures
            r.wf(),
            r@ == (PaneTrackerView { panes: Seq::empty(), last_updates: Seq::empty(), min_update_interval: 100, debounce_threshold: 2 }),
    {
        PaneStatusTracker::with_debounce(2)
    }

    /// No panes, 100 milliseconds between updates, the given threshold for new panes.
    pub fn with_debounce(threshold: u8) -> (r: Self)
        ensures
            r.wf(),
            r@ == (PaneTrackerView { panes: Seq::empty(), last_updates: Seq::empty(), min_update_interval: 100, debounce_threshold: threshold }),
    {
        let r = PaneStatusTracker { pane_trackers: Vec::new(), last_updates: Vec::new(), min_update_interval: 100, debounce_threshold: threshold };
        proof {
            assert(entries(r.pane_trackers@) =~= Seq::empty());
            assert(times(r.last_updates@) =~= Seq::empty());
            assert(entry_keys(entries(r.pane_trackers@)) =~= Seq::empty());
            assert(time_keys(times(r.last_updates@)) =~= Seq::empty());
        }
        r
    }

    fn set_time_exec(&mut self, pane_id: &str, now: u64)
        requires
            old(self).wf(),
        ensures
            final(self).wf(),
            final(self)@ == (PaneTrackerView { last_updates: set_time(old(self)@.last_updates, pane_id@, now), ..old(self)@ }),
    {
        let ghost tv = times(self.last_updates@);
        match find_time(&self.last_updates, pane_id) {
            Some(j) => {
                self.last_updates.set(j, (pane_id.to_string(), now));
                proof {
                    assert(times(self.last_updates@) =~= tv.update(j as int, (pane_id@, now)));
                    assert(time_keys(times(self.last_updates@)) =~= time_keys(tv));
                }
            },
            None => {
                self.last_updates.push((pane_id.to_string(), now));
                proof {
                    assert(times(self.last_updates@) =~= tv.push((pane_id@, now)));
                    assert(time_keys(times(self.last_updates@)) =~= time_keys(tv).push(pane_id@));
                    lemma_push_unique(time_keys(tv), pane_id@);
                }
            },
        }
    }

    fn set_tracker_exec(&mut self, pane_id: &str, t: DebouncedStatusTracker)
        requires
            old(self).wf(),
            default_detector(t.detector_view()),
        ensures
            final(self).wf(),
            final(self)@ == (PaneTrackerView { panes: set_entry(old(self)@.panes, pane_id@, t@), ..old(self)@ }),
    {
        let ghost ev = entries(self.pane_trackers@);
        let ghost before = self.pane_trackers@;
        match find_pane(&self.pane_trackers, pane_id) {
            Some(i) => {
                self.pane_trackers.set(i, (pane_id.to_string(), t));
                proof {
                    assert(entries(self.pane_trackers@) =~= ev.update(i as int, PaneEntry { pane: pane_id@, tracker: t@ }));
                    assert(entry_keys(entries(self.pane_trackers@)) =~= entry_keys(ev));
                    assert forall|j: int| 0 <= j < self.pane_trackers@.len() implies default_detector((#[trigger] self.pane_trackers@[j]).1.detector_view()) by {
                        if j != i { assert(self.pane_trackers@[j] == before[j]); }
                    }
                }
            },
            None => {
                self.pane_trackers.push((pane_id.to_string(), t));
                proof {
                    assert(entries(self.pane_trackers@) =~= ev.push(PaneEntry { pane: pane_id@, tracker: t@ }));
                    assert(entry_keys(entries(self.pane_trackers@)) =~= entry_keys(ev).push(pane_id@));
                    lemma_push_unique(entry_keys(ev), pane_id@);
                    assert forall|j: int| 0 <= j < self.pane_trackers@.len() implies default_detector((#[trigger] self.pane_trackers@[j]).1.detector_view()) by {
                        if j < before.len() { assert(self.pane_trackers@[j] == before[j]); }
                    }
                }
            },
        }
    }

    /// Starts tracking a pane afresh at time `now`.
    pub fn register_pane_at(&mut self, pane_id: &str, now: u64)
        requires
            old(self).wf(),
        ensures
            final(self).wf(),
            final(self)@ == (PaneTrackerView {
                panes: set_entry(old(self)@.panes, pane_id@, fresh_tracker(old(self)@.debounce_threshold)),
                last_updates: set_time(old(self)@.last_updates, pane_id@, now),
                ..old(self)@
            }),
    {
        let t = DebouncedStatusTracker::with_debounce(self.debounce_threshold);
        self.set_tracker_exec(pane_id, t);
        self.set_time_exec(pane_id, now);
    }

    /// Starts tracking a pane afresh now, by the system clock.
    pub fn register_pane(&mut self, pane_id: &str)
        requires
            old(self).wf(),
        ensures
            final(self).wf(),
            final(self)@.panes == set_entry(old(self)@.panes, pane_id@, fresh_tracker(old(self)@.debounce_threshold)),
            time_keys(final(self)@.last_updates).contains(pane_id@),
            exists|now: u64| final(self)@.last_updates == #[trigger] set_time(old(self)@.last_updates, pane_id@, now),
            final(self)@.min_update_interval == old(self)@.min_update_interval,
            final(self)@.debounce_threshold == old(self)@.debounce_threshold,
    {
        let now = now_millis();
        self.register_pane_at(pane_id, now);
        proof {
            let tv = old(self)@.last_updates;
            match key_pos(time_keys(tv), pane_id@) {
                Some(j) => { assert(time_keys(set_time(tv, pane_id@, now))[j] == pane_id@); },
                None => { assert(time_keys(set_time(tv, pane_id@, now))[tv.len() as int] == pane_id@); },
            }
        }
    }

    /// Stops tracking a pane.
    pub fn unregister_pane(&mut self, pane_id: &str)
        requires
            old(self).wf(),
        ensures
            final(self).wf(),
            !entry_keys(final(self)@.panes).contains(pane_id@),
            !time_keys(final(self)@.last_updates).contains(pane_id@),
            forall|k: Seq<char>| k != pane_id@ ==> (entry_keys(final(self)@.panes).contains(k) <==> entry_keys(old(self)@.panes).contains(k)),
            forall|k: Seq<char>| k != pane_id@ ==> tracker_of(final(self)@.panes, k, old(self)@.debounce_threshold) == tracker_of(old(self)@.panes, k, old(self)@.debounce_threshold),
            forall|k: Seq<char>| k != pane_id@ ==> (time_keys(final(self)@.last_updates).contains(k) <==> time_keys(old(self)@.last_updates).contains(k)),
            final(self)@.min_update_interval == old(self)@.min_update_interval,
            final(self)@.debounce_threshold == old(self)@.debounce_threshold,
    {
        let ghost ev = entries(self.pane_trackers@);
        let ghost before = self.pane_trackers@;
        match find_pane(&self.pane_trackers, pane_id) {
            Some(i) => {
                let _ = self.pane_trackers.remove(i);
                proof {
                    let ks = entry_keys(ev);
                    let nk = entry_keys(entries(self.pane_trackers@));
                    assert(entries(self.pane_trackers@) =~= ev.remove(i as int));
                    assert(nk =~= ks.remove(i as int));
                    assert(ks[i as int] == pane_id@);
                    assert(nk.no_duplicates()) by {
                        assert forall|a: int, b: int| 0 <= a < nk.len() && 0 <= b < nk.len() && a != b implies nk[a] != nk[b] by {
                            let a2 = if a < i { a } else { a + 1 };
                            let b2 = if b < i { b } else { b + 1 };
                            assert(nk[a] == ks[a2]);
                            assert(nk[b] == ks[b2]);
                        }
                    }
                    assert(!nk.contains(pane_id@)) by {
                        if nk.contains(pane_id@) {
                            let a = choose|a: int| 0 <= a < nk.len() && nk[a] == pane_id@;
                            let a2 = if a < i { a } else { a + 1 };
                            assert(ks[a2] == pane_id@);
                        }
                    }
                    assert forall|k: Seq<char>| k != pane_id@ implies (nk.contains(k) <==> ks.contains(k)) by {
                        if nk.contains(k) {
                            let a = choose|a: int| 0 <= a < nk.len() && nk[a] == k;
                            let a2 = if a < i { a } else { a + 1 };
                            assert(ks[a2] == k);
                        }
                        if ks.contains(k) {
                            let a = choose|a: int| 0 <= a < ks.len() && ks[a] == k;
                            assert(a != i);
                            let a2 = if a < i { a } else { a - 1 };
                            assert(nk[a2] == k);
                        }
                    }
                    assert forall|k: Seq<char>| k != pane_id@ implies
                        tracker_of(entries(self.pane_trackers@), k, self.debounce_threshold) == tracker_of(ev, k, self.debounce_threshold) by {
                        if ks.contains(k) {
                            let a = choose|a: int| 0 <= a < ks.len() && ks[a] == k;
                            lemma_key_pos_found(ks, k, a);
                            let a2 = if a < i { a } else { a - 1 };
                            assert(nk[a2] == k);
                            lemma_key_pos_found(nk, k, a2);
                        } else {
                            assert(!nk.contains(k));
                        }
                    }
                    assert forall|j: int| 0 <= j < self.pane_trackers@.len() implies default_detector((#[trigger] self.pane_trackers@[j]).1.detector_view()) by {
                        let j2 = if j < i { j } else { j + 1 };
                        assert(self.pane_trackers@[j] == before[j2]);
                    }
                }
            },
            None => {
                proof {
                    assert(!entry_keys(ev).contains(pane_id@));
                }
            },
        }
        let ghost tv = times(self.last_updates@);
        match find_time(&self.last_updates, pane_id) {
            Some(j) => {
                let _ = self.last_updates.remove(j);
                proof {
                    let ks = time_keys(tv);
                    let nk = time_keys(times(self.last_updates@));
                    assert(times(self.last_updates@) =~= tv.remove(j as int));
                    assert(nk =~= ks.remove(j as int));
                    assert(ks[j as int] == pane_id@);
                    assert(nk.no_duplicates()) by {
                        assert forall|a: int, b: int| 0 <= a < nk.len() && 0 <= b < nk.len() && a != b implies nk[a] != nk[b] by {
                            let a2 = if a < j { a } else { a + 1 };
                            let b2 = if b < j { b } else { b + 1 };
                            assert(nk[a] == ks[a2]);
                            assert(nk[b] == ks[b2]);
                        }
                    }
                    assert(!nk.contains(pane_id@)) by {
                        if nk.contains(pane_id@) {
                            let a = choose|a: int| 0 <= a < nk.len() && nk[a] == pane_id@;
                            let a2 = if a < j { a } else { a + 1 };
                            assert(ks[a2] == pane_id@);
                        }
                    }
                    assert forall|k: Seq<char>| k != pane_id@ implies (nk.contains(k) <==> ks.contains(k)) by {
                        if nk.contains(k) {
                            let a = choose|a: int| 0 <= a < nk.len() && nk[a] == k;
                            let a2 = if a < j { a } else { a + 1 };
                            assert(ks[a2] == k);
                        }
                        if ks.contains(k) {
                            let a = choose|a: int| 0 <= a < ks.len() && ks[a] == k;
                            assert(a != j);
                            let a2 = if a < j { a } else { a - 1 };
                            assert(nk[a2] == k);
                        }
                    }
                }
            },
            None => {
                proof { assert(!time_keys(tv).contains(pane_id@)); }
            },
        }
    }

    /// Updates pane `pane_id` with `content` at time `now`; `true` when its status
    /// changed.
    pub fn update_pane_at(&mut self, pane_id: &str, content: &str, now: u64) -> (r: bool)
        requires
            old(self).wf(),
        ensures
            final(self).wf(),
            (final(self)@, r) == update_spec(old(self)@, pane_id@, content@, now),
    {
        match find_time(&self.last_updates, pane_id) {
            Some(j) => {
                let t = self.last_updates[j].1;
                let a = if now >= t { now - t } else { 0 };
                if a < self.min_update_interval {
                    return false;
                }
            },
            None => {},
        }
        let ghost s = self@;
        match find_pane(&self.pane_trackers, pane_id) {
            Some(i) => {
                let ghost before = self.pane_trackers@;
                let (name, mut t) = self.pane_trackers.remove(i);
                proof {
                    assert(before[i as int].1 == t);
                    assert(entries(before)[i as int].pane == name@);
                    assert(default_detector(t.detector_view()));
                }
                let changed = t.update_from_text(content);
                self.pane_trackers.insert(i, (name, t));
                proof {
                    assert(self.pane_trackers@ =~= before.update(i as int, self.pane_trackers@[i as int]));
                    assert(entries(self.pane_trackers@) =~= s.panes.update(i as int, PaneEntry { pane: pane_id@, tracker: t@ }));
                    assert(entry_keys(entries(self.pane_trackers@)) =~= entry_keys(s.panes));
                    assert forall|j: int| 0 <= j < self.pane_trackers@.len() implies default_detector((#[trigger] self.pane_trackers@[j]).1.detector_view()) by {
                        if j != i { assert(self.pane_trackers@[j] == before[j]); }
                    }
                }
                if changed {
                    self.set_time_exec(pane_id, now);
                }
                changed
            },
            None => {
                let mut t = DebouncedStatusTracker::with_debounce(self.debounce_threshold);
                let changed = t.update_from_text(content);
                self.set_tracker_exec(pane_id, t);
                if changed {
                    self.set_time_exec(pane_id, now);
                }
                changed
            },
        }
    }

    /// Updates pane `pane_id` with `content` now, by the system clock; `true` when its
    /// status changed.
    pub fn update_pane(&mut self, pane_id: &str, content: &str) -> (r: bool)
        requires
            old(self).wf(),
        ensures
            final(self).wf(),
            exists|now: u64| (final(self)@, r) == #[trigger] update_spec(old(self)@, pane_id@, content@, now),
    {
        let now = now_millis();
        self.update_pane_at(pane_id, content, now)
    }

    /// Current status of a pane (`Unknown` for an untracked one).
    pub fn get_status(&self, pane_id: &str) -> (r: AgentStatus)
        requires
            self.wf(),
        ensures
            r == tracker_of(self@.panes, pane_id@, self@.debounce_threshold).current,
    {
        match find_pane(&self.pane_trackers, pane_id) {
            Some(i) => self.pane_trackers[i].1.current_status(),
            None => AgentStatus::Unknown,
        }
    }

    /// Every tracked pane with its current status, in order.
    pub fn get_all_statuses(&self) -> (r: Vec<(String, AgentStatus)>)
        ensures
            r@.len() == self@.panes.len(),
            forall|i: int| 0 <= i < r@.len() ==> (#[trigger] r@[i]).0@ == self@.panes[i].pane && r@[i].1 == self@.panes[i].tracker.current,
    {
        let ghost ev = entries(self.pane_trackers@);
        let mut out: Vec<(String, AgentStatus)> = Vec::new();
        let mut i: usize = 0;
        while i < self.pane_trackers.len()
            invariant
                i <= self.pane_trackers.len(),
                ev == entries(self.pane_trackers@),
                out@.len() == i,
                forall|j: int| 0 <= j < i ==> (#[trigger] out@[j]).0@ == ev[j].pane && out@[j].1 == ev[j].tracker.current,
            decreases self.pane_trackers.len() - i,
        {
            out.push((self.pane_trackers[i].0.clone(), self.pane_trackers[i].1.current_status()));
            i = i + 1;
        }
        out
    }

    /// Sets a pane's status at once (tracking it if new) and records time `now`.
    pub fn force_status_at(&mut self, pane_id: &str, status: AgentStatus, now: u64)
        requires
            old(self).wf(),
        ensures
            final(self).wf(),
            final(self)@ == (PaneTrackerView {
                panes: set_entry(old(self)@.panes, pane_id@, TrackerView {
                    current: status, pending: None, count: 0,
                    threshold: tracker_of(old(self)@.panes, pane_id@, old(self)@.debounce_threshold).threshold,
                }),
                last_updates: set_time(old(self)@.last_updates, pane_id@, now),
                ..old(self)@
            }),
    {
        let ghost s = self@;
        match find_pane(&self.pane_trackers, pane_id) {
            Some(i) => {
                let ghost before = self.pane_trackers@;
                let (name, mut t) = self.pane_trackers.remove(i);
                proof {
                    assert(before[i as int].1 == t);
                    assert(entries(before)[i as int].pane == name@);
                }
                t.force_status(status);
                self.pane_trackers.insert(i, (name, t));
                proof {
                    assert(entries(self.pane_trackers@) =~= s.panes.update(i as int, PaneEntry { pane: pane_id@, tracker: t@ }));
                    assert(entry_keys(entries(self.pane_trackers@)) =~= entry_keys(s.panes));
                    assert forall|j: int| 0 <= j < self.pane_trackers@.len() implies default_detector((#[trigger] self.pane_trackers@[j]).1.detector_view()) by {
                        if j != i { assert(self.pane_trackers@[j] == before[j]); }
                    }
                }
            },
            None => {
                let mut t = DebouncedStatusTracker::with_debounce(self.debounce_threshold);
                t.force_status(status);
                self.set_tracker_exec(pane_id, t);
            },
        }
        self.set_time_exec(pane_id, now);
    }

    /// Sets a pane's status at once (tracking it if new), now by the system clock.
    pub fn force_status(&mut self, pane_id: &str, status: AgentStatus)
        requires
            old(self).wf(),
        ensures
            final(self).wf(),
            final(self)@.panes == set_entry(old(self)@.panes, pane_id@, TrackerView {
                current: status, pending: None, count: 0,
                threshold: tracker_of(old(self)@.panes, pane_id@, old(self)@.debounce_threshold).threshold,
            }),
            exists|now: u64| final(self)@.last_updates == #[trigger] set_time(old(self)@.last_updates, pane_id@, now),
            final(self)@.min_update_interval == old(self)@.min_update_interval,
            final(self)@.debounce_threshold == old(self)@.debounce_threshold,
    {
        let now = now_millis();
        self.force_status_at(pane_id, status, now);
    }

    /// Resets every pane to `Unknown` and forgets all update times.
    pub fn reset_all(&mut self)
        requires
            old(self).wf(),
        ensures
            final(self).wf(),
            final(self)@.panes.len() == old(self)@.panes.len(),
            forall|i: int| 0 <= i < final(self)@.panes.len() ==> (#[trigger] final(self)@.panes[i]) == (PaneEntry {
                pane: old(self)@.panes[i].pane,
                tracker: TrackerView { current: AgentStatus::Unknown, pending: None, count: 0, threshold: old(self)@.panes[i].tracker.threshold },
            }),
            final(self)@.last_updates.len() == 0,
            final(self)@.min_update_interval == old(self)@.min_update_interval,
            final(self)@.debounce_threshold == old(self)@.debounce_threshold,
    {
        let ghost ev = entries(self.pane_trackers@);
        let ghost orig = self.pane_trackers@;
        let mut i: usize = 0;
        while i < self.pane_trackers.len()
            invariant
                i <= self.pane_trackers.len(),
                self.pane_trackers@.len() == ev.len(),
                self.min_update_interval == old(self).min_update_interval,
                self.debounce_threshold == old(self).debounce_threshold,
                ev == entries(old(self).pane_trackers@),
                entry_keys(entries(self.pane_trackers@)) == entry_keys(ev),
                entry_keys(ev).no_duplicates(),
                time_keys(times(self.last_updates@)).no_duplicates(),
                forall|j: int| 0 <= j < self.pane_trackers@.len() ==> default_detector((#[trigger] self.pane_trackers@[j]).1.detector_view()),
                forall|j: int| 0 <= j < i ==> (#[trigger] entries(self.pane_trackers@)[j]) == (PaneEntry {
                    pane: ev[j].pane,
                    tracker: TrackerView { current: AgentStatus::Unknown, pending: None, count: 0, threshold: ev[j].tracker.threshold },
                }),
                forall|j: int| i <= j < ev.len() ==> (#[trigger] entries(self.pane_trackers@)[j]) == ev[j],
            decreases self.pane_trackers.len() - i,
        {
            let ghost before = self.pane_trackers@;
            let (name, mut t) = self.pane_trackers.remove(i);
            proof { assert(entries(before)[i as int].pane == name@ && entries(before)[i as int].tracker == t@); }
            t.reset();
            self.pane_trackers.insert(i, (name, t));
            proof {
                assert(self.pane_trackers@ =~= before.update(i as int, self.pane_trackers@[i as int]));
                assert(entries(self.pane_trackers@) =~= entries(before).update(i as int, PaneEntry { pane: ev[i as int].pane, tracker: t@ }));
                assert(entry_keys(entries(self.pane_trackers@)) =~= entry_keys(ev));
                assert forall|j: int| 0 <= j < self.pane_trackers@.len() implies default_detector((#[trigger] self.pane_trackers@[j]).1.detector_view()) by {
                    if j != i { assert(self.pane_trackers@[j] == before[j]); }
                }
            }
            i = i + 1;
        }
        self.last_updates = Vec::new();
        proof {
            assert(times(self.last_updates@) =~= Seq::empty());
            assert(time_keys(times(self.last_updates@)) =~= Seq::empty());
        }
    }

    /// How many panes are tracked.
    pub fn pane_count(&self) -> (r: usize)
        ensures
            r == self@.panes.len(),
    {
        self.pane_trackers.len()
    }

    /// Whether a pane is tracked.
    pub fn is_tracking(&self, pane_id: &str) -> (r: bool)
        requires
            self.wf(),
        ensures
            r == entry_keys(self@.panes).contains(pane_id@),
    {
        match find_pane(&self.pane_trackers, pane_id) {
            Some(i) => {
                proof { assert(entry_keys(self@.panes)[i as int] == pane_id@ || true); }
                true
            },
            None => false,
        }
    }

    /// The tracked panes, in order.
    pub fn pane_ids(&self) -> (r: Vec<String>)
        ensures
            r@.len() == self@.panes.len(),
            forall|i: int| 0 <= i < r@.len() ==> (#[trigger] r@[i])@ == self@.panes[i].pane,
    {
        let ghost ev = entries(self.pane_trackers@);
        let mut out: Vec<String> = Vec::new();
        let mut i: usize = 0;
        while i < self.pane_trackers.len()
            invariant
                i <= self.pane_trackers.len(),
                ev == entries(self.pane_trackers@),
                out@.len() == i,
                forall|j: int| 0 <= j < i ==> (#[trigger] out@[j])@ == ev[j].pane,
            decreases self.pane_trackers.len() - i,
        {
            out.push(self.pane_trackers[i].0.clone());
            i = i + 1;
        }
        out
    }

    /// The panes whose status is urgent, with their status, in order.
    pub fn get_urgent_panes(&self) -> (r: Vec<(String, AgentStatus)>)
        ensures
            forall|i: int| 0 <= i < r@.len() ==> status_is_urgent((#[trigger] r@[i]).1)
                && exists|j: int| 0 <= j < self@.panes.len() && self@.panes[j].pane == r@[i].0@ && self@.panes[j].tracker.current == r@[i].1,
            r@.len() == urgent_count(self@.panes),
    {
        let ghost ev = entries(self.pane_trackers@);
        let mut out: Vec<(String, AgentStatus)> = Vec::new();
        let mut i: usize = 0;
        while i < self.pane_trackers.len()
            invariant
                i <= self.pane_trackers.len(),
                ev == entries(self.pane_trackers@),
                out@.len() == urgent_count(ev.take(i as int)),
                forall|k: int| 0 <= k < out@.len() ==> status_is_urgent((#[trigger] out@[k]).1)
                    && exists|j: int| 0 <= j < ev.len() && ev[j].pane == out@[k].0@ && ev[j].tracker.current == out@[k].1,
            decreases self.pane_trackers.len() - i,
        {
            proof { assert(ev.take(i + 1).drop_last() =~= ev.take(i as int)); }
            let st = self.pane_trackers[i].1.current_status();
            if st.is_urgent() {
                let ghost before = out@;
                out.push((self.pane_trackers[i].0.clone(), st));
                proof {
                    assert forall|k: int| 0 <= k < out@.len() implies status_is_urgent((#[trigger] out@[k]).1)
                        && exists|j: int| 0 <= j < ev.len() && ev[j].pane == out@[k].0@ && ev[j].tracker.current == out@[k].1 by {
                        if k == before.len() {
                            assert(ev[i as int].pane == out@[k].0@ && ev[i as int].tracker.current == out@[k].1);
                        } else {
                            assert(out@[k] == before[k]);
                        }
                    }
                }
            }
            i = i + 1;
        }
        proof {
            assert(ev.take(ev.len() as int) =~= ev);
            assert(self@.panes == ev);
        }
        out
    }
}

/// Whether pane `k` was last updated more than `max_age` milliseconds before `now`,
/// among the first `n` update times.
pub open spec fn stale_among(v: Seq<(Seq<char>, u64)>, n: int, k: Seq<char>, now: u64, max_age: u64) -> bool {
    exists|j: int| 0 <= j < n && j < v.len() && (#[trigger] v[j]).0 == k && age(v[j].1, now) > max_age
}

/// Whether pane `k` was last updated more than `max_age` milliseconds before `now`.
pub open spec fn is_stale(v: Seq<(Seq<char>, u64)>, k: Seq<char>, now: u64, max_age: u64) -> bool {
    stale_among(v, v.len() as int, k, now, max_age)
}

/// Whether `k` is among the first `n` strings of `v`.
pub open spec fn listed(v: Seq<String>, n: int, k: Seq<char>) -> bool {
    exists|m: int| 0 <= m < n && m < v.len() && (#[trigger] v[m])@ == k
}

/// The panes of `cur` are those of `s0` without the first `m` of `stale`, and so are its
/// update times.
pub open spec fn removed_listed(cur: PaneTrackerView, s0: PaneTrackerView, stale: Seq<String>, m: int) -> bool {
    &&& forall|k: Seq<char>| #![trigger entry_keys(cur.panes).contains(k)] #![trigger entry_keys(s0.panes).contains(k)] #![trigger listed(stale, m, k)]
        (entry_keys(cur.panes).contains(k) <==> (entry_keys(s0.panes).contains(k) && !listed(stale, m, k)))
    &&& forall|k: Seq<char>| #![trigger time_keys(cur.last_updates).contains(k)] #![trigger time_keys(s0.last_updates).contains(k)] #![trigger listed(stale, m, k)]
        (time_keys(cur.last_updates).contains(k) <==> (time_keys(s0.last_updates).contains(k) && !listed(stale, m, k)))
    &&& forall|k: Seq<char>| #![trigger tracker_of(cur.panes, k, s0.debounce_threshold)]
        entry_keys(cur.panes).contains(k) ==> tracker_of(cur.panes, k, s0.debounce_threshold) == tracker_of(s0.panes, k, s0.debounce_threshold)
    &&& cur.min_update_interval == s0.min_update_interval
    &&& cur.debounce_threshold == s0.debounce_threshold
}

proof fn lemma_removed_step(before: PaneTrackerView, after: PaneTrackerView, s0: PaneTrackerView, stale: Seq<String>, mo: int, n: int)
    requires
        0 <= mo < stale.len(),
        n == mo + 1,
        removed_listed(before, s0, stale, mo),
        !entry_keys(after.panes).contains(stale[mo]@),
        !time_keys(after.last_updates).contains(stale[mo]@),
        forall|k: Seq<char>| k != stale[mo]@ ==> (entry_keys(after.panes).contains(k) <==> entry_keys(before.panes).contains(k)),
        forall|k: Seq<char>| k != stale[mo]@ ==> (time_keys(after.last_updates).contains(k) <==> time_keys(before.last_updates).contains(k)),
        forall|k: Seq<char>| k != stale[mo]@ ==> tracker_of(after.panes, k, before.debounce_threshold) == tracker_of(before.panes, k, before.debounce_threshold),
        after.min_update_interval == before.min_update_interval,
        after.debounce_threshold == before.debounce_threshold,
    ensures
        removed_listed(after, s0, stale, n),
{
    assert forall|k: Seq<char>| entry_keys(after.panes).contains(k) implies
        tracker_of(after.panes, k, s0.debounce_threshold) == tracker_of(s0.panes, k, s0.debounce_threshold) by {
        assert(k != stale[mo]@);
        assert(entry_keys(before.panes).contains(k));
    }
    assert forall|k: Seq<char>|
        (entry_keys(after.panes).contains(k) <==> (entry_keys(s0.panes).contains(k) && !listed(stale, n, k)))
        && (time_keys(after.last_updates).contains(k) <==> (time_keys(s0.last_updates).contains(k) && !listed(stale, n, k))) by {
        if k == stale[mo]@ {
            assert(listed(stale, n, k));
        } else {
            assert(listed(stale, n, k) == listed(stale, mo, k)) by {
                if listed(stale, n, k) {
                    let q = choose|q: int| 0 <= q < n && q < stale.len() && (#[trigger] stale[q])@ == k;
                    assert(q < mo);
                }
            }
        }
    }
}

/// `f` is `o` after dropping, at time `now`, the panes last updated more than `max_age`
/// milliseconds before: exactly the other panes and their update times remain, each
/// pane keeps its tracker, and the settings stay.
pub open spec fn stale_cleanup(o: PaneTrackerView, f: PaneTrackerView, max_age: u64, now: u64) -> bool {
    &&& forall|k: Seq<char>| entry_keys(f.panes).contains(k) <==>
        (entry_keys(o.panes).contains(k) && !is_stale(o.last_updates, k, now, max_age))
    &&& forall|k: Seq<char>| time_keys(f.last_updates).contains(k) <==>
        (time_keys(o.last_updates).contains(k) && !is_stale(o.last_updates, k, now, max_age))
    &&& forall|k: Seq<char>| entry_keys(f.panes).contains(k) ==>
        tracker_of(f.panes, k, o.debounce_threshold) == tracker_of(o.panes, k, o.debounce_threshold)
    &&& f.min_update_interval == o.min_update_interval
    &&& f.debounce_threshold == o.debounce_threshold
}

impl PaneStatusTracker {
    /// Stops tracking the panes last updated more than `max_age` milliseconds before
    /// `now`.
    pub fn cleanup_stale_at(&mut self, max_age: u64, now: u64)
        requires
            old(self).wf(),
        ensures
            final(self).wf(),
            stale_cleanup(old(self)@, final(self)@, max_age, now),
    {
        let ghost tv = self@.last_updates;
        let mut stale: Vec<String> = Vec::new();
        let mut i: usize = 0;
        while i < self.last_updates.len()
            invariant
                i <= self.last_updates.len(),
                tv == times(self.last_updates@),
                forall|k: Seq<char>| #[trigger] listed(stale@, stale@.len() as int, k) <==> stale_among(tv, i as int, k, now, max_age),
            decreases self.last_updates.len() - i,
        {
            let t = self.last_updates[i].1;
            let a = if now >= t { now - t } else { 0 };
            if a > max_age {
                let ghost before = stale@;
                stale.push(self.last_updates[i].0.clone());
                proof {
                    assert forall|k: Seq<char>| #[trigger] listed(stale@, stale@.len() as int, k) <==> stale_among(tv, i + 1, k, now, max_age) by {
                        if listed(stale@, stale@.len() as int, k) {
                            let m = choose|m: int| 0 <= m < stale@.len() && m < stale@.len() && (#[trigger] stale@[m])@ == k;
                            if m < before.len() {
                                assert(before[m]@ == k);
                                assert(listed(before, before.len() as int, k));
                            } else {
                                assert(tv[i as int].0 == k);
                            }
                        }
                        if stale_among(tv, i + 1, k, now, max_age) {
                            let j = choose|j: int| 0 <= j < i + 1 && j < tv.len() && (#[trigger] tv[j]).0 == k && age(tv[j].1, now) > max_age;
                            if j < i {
                                assert(stale_among(tv, i as int, k, now, max_age));
                                assert(listed(before, before.len() as int, k));
                                let m = choose|m: int| 0 <= m < before.len() && m < before.len() && (#[trigger] before[m])@ == k;
                                assert(stale@[m] == before[m]);
                            } else {
                                assert(stale@[before.len() as int]@ == k);
                            }
                        }
                    }
                }
            } else {
                proof {
                    assert forall|k: Seq<char>| #[trigger] listed(stale@, stale@.len() as int, k) <==> stale_among(tv, i + 1, k, now, max_age) by {
                        if stale_among(tv, i + 1, k, now, max_age) {
                            let j = choose|j: int| 0 <= j < i + 1 && j < tv.len() && (#[trigger] tv[j]).0 == k && age(tv[j].1, now) > max_age;
                            assert(j != i);
                            assert(stale_among(tv, i as int, k, now, max_age));
                        }
                        if listed(stale@, stale@.len() as int, k) {
                            assert(stale_among(tv, i as int, k, now, max_age));
                        }
                    }
                }
            }
            i = i + 1;
        }
        let ghost s0 = self@;
        let mut m: usize = 0;
        while m < stale.len()
            invariant
                m <= stale.len(),
                self.wf(),
                s0 == old(self)@,
                tv == s0.last_updates,
                i == tv.len(),
                forall|k: Seq<char>| #[trigger] listed(stale@, stale@.len() as int, k) <==> stale_among(tv, i as int, k, now, max_age),
                removed_listed(self@, s0, stale@, m as int),
            decreases stale.len() - m,
        {
            let ghost before = self@;
            let ghost mo: int = m as int;
            let name = stale[m].as_str();
            assert(name@ == stale@[m as int]@);
            self.unregister_pane(name);
            m = m + 1;
            proof { lemma_removed_step(before, self@, s0, stale@, mo, m as int); }
            assert(removed_listed(self@, s0, stale@, m as int));
        }
        proof {
            assert(removed_listed(self@, s0, stale@, m as int));
            assert forall|k: Seq<char>| entry_keys(self@.panes).contains(k) <==>
                (entry_keys(s0.panes).contains(k) && !is_stale(s0.last_updates, k, now, max_age)) by {
                assert(listed(stale@, m as int, k) == listed(stale@, stale@.len() as int, k));
            }
            assert forall|k: Seq<char>| time_keys(self@.last_updates).contains(k) <==>
                (time_keys(s0.last_updates).contains(k) && !is_stale(s0.last_updates, k, now, max_age)) by {
                assert(listed(stale@, m as int, k) == listed(stale@, stale@.len() as int, k));
            }
        }
    }

    /// Stops tracking the panes last updated more than `max_age` milliseconds ago, by
    /// the system clock.
    pub fn cleanup_stale(&mut self, max_age: u64)
        requires
            old(self).wf(),
        ensures
            final(self).wf(),
            exists|now: u64| #[trigger] stale_cleanup(old(self)@, final(self)@, max_age, now),
    {
        let now = now_millis();
        self.cleanup_stale_at(max_age, now);
    }
}

/// How many entries have an urgent status.
pub open spec fn urgent_count(v: Seq<PaneEntry>) -> nat
    decreases v.len(),
{
    if v.len() == 0 { 0 } else {
        urgent_count(v.drop_last()) + if status_is_urgent(v.last().tracker.current) { 1nat } else { 0nat }
    }
}

/// Setting the tracker of a pane makes it tracked with that tracker, and leaves every
/// other pane's tracker as it was.
pub proof fn law_set_then_get(v: Seq<PaneEntry>, k: Seq<char>, t: TrackerView, other: Seq<char>, threshold: u8)
    requires
        entry_keys(v).no_duplicates(),
        other != k,
    ensures
        entry_keys(set_entry(v, k, t)).contains(k),
        tracker_of(set_entry(v, k, t), k, threshold) == t,
        tracker_of(set_entry(v, k, t), other, threshold) == tracker_of(v, other, threshold),
{
    let ks = entry_keys(v);
    let n = set_entry(v, k, t);
    let nk = entry_keys(n);
    match key_pos(ks, k) {
        Some(i) => {
            assert(nk =~= ks.update(i, k));
            assert(nk.no_duplicates());
            lemma_key_pos_found(nk, k, i);
            if ks.contains(other) {
                let j = choose|j: int| 0 <= j < ks.len() && ks[j] == other;
                lemma_key_pos_found(ks, other, j);
                lemma_key_pos_found(nk, other, j);
            } else {
                assert(!nk.contains(other)) by {
                    if nk.contains(other) {
                        let j = choose|j: int| 0 <= j < nk.len() && nk[j] == other;
                        assert(ks[j] == other);
                    }
                }
            }
        },
        None => {
            assert(nk =~= ks.push(k));
            lemma_push_unique(ks, k);
            lemma_key_pos_found(nk, k, ks.len() as int);
            if ks.contains(other) {
                let j = choose|j: int| 0 <= j < ks.len() && ks[j] == other;
                lemma_key_pos_found(ks, other, j);
                lemma_key_pos_found(nk, other, j);
            } else {
                assert(!nk.contains(other)) by {
                    if nk.contains(other) {
                        let j = choose|j: int| 0 <= j < nk.len() && nk[j] == other;
                        if j < ks.len() { assert(ks[j] == other); }
                    }
                }
            }
        },
    }
}

} // verus!
