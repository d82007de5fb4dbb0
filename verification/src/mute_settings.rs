//! Which notifications are muted: all of them, those of some panes, those of some kinds,
//! or all of them until a time.
use vstd::prelude::*;
use crate::clock::now_millis;
use crate::notification::NotificationType;
use crate::text::str_equal;

verus! {

/// Texts of strings.
pub open spec fn string_views(v: Seq<String>) -> Seq<Seq<char>> {
    v.map_values(|s: String| s@)
}

/// Settings for muting notifications. The lists hold no element twice.
#[derive(Debug, Clone)]
pub struct MuteSettings {
    /// Mute all notifications.
    pub global_mute: bool,
    /// Muted panes.
    pub muted_panes: Vec<String>,
    /// Muted kinds.
    pub muted_types: Vec<NotificationType>,
    /// Mute all notifications until this time, in milliseconds since the Unix epoch.
    pub temporary_mute_until: Option<u64>,
}

/// Whether a temporary mute set to `until` is active at time `now`.
pub open spec fn temp_active(until: Option<u64>, now: u64) -> bool {
    until matches Some(u) && now < u
}

/// When a temporary mute of `duration` milliseconds started at `now` ends (at the
/// largest time at most).
pub open spec fn mute_end(now: u64, duration: u64) -> u64 {
    if now + duration > u64::MAX { u64::MAX } else { (now + duration) as u64 }
}

/// Milliseconds left at time `now` of a temporary mute lasting until `until` (0 once
/// over); `None` without one.
pub open spec fn mute_remaining(until: Option<u64>, now: u64) -> Option<u64> {
    match until {
        Some(u) => Some(if now < u { (u - now) as u64 } else { 0 }),
        None => None,
    }
}

impl MuteSettings {
    /// The muted panes as a set of texts.
    pub open spec fn panes(&self) -> Set<Seq<char>> {
        Set::new(|p: Seq<char>| string_views(self.muted_panes@).contains(p))
    }

    /// The muted kinds as a set.
    pub open spec fn types(&self) -> Set<NotificationType> {
        Set::new(|t: NotificationType| self.muted_types@.contains(t))
    }

    /// Neither list holds an element twice.
    pub open spec fn wf(&self) -> bool {
        string_views(self.muted_panes@).no_duplicates() && self.muted_types@.no_duplicates()
    }

    /// Whether a notification of `pane_id` and kind `t` is muted at time `now`.
    pub open spec fn muted_at(&self, pane_id: Seq<char>, t: NotificationType, now: u64) -> bool {
        self.global_mute || temp_active(self.temporary_mute_until, now) || self.panes().contains(pane_id)
            || self.types().contains(t)
    }

    /// Nothing muted.
    pub fn new() -> (r: Self)
        ensures
            !r.global_mute,
            r.muted_panes@.len() == 0,
            r.muted_types@.len() == 0,
            r.temporary_mute_until is None,
            r.wf(),
    {
        let r = MuteSettings { global_mute: false, muted_panes: Vec::new(), muted_types: Vec::new(), temporary_mute_until: None };
        proof { assert(string_views(r.muted_panes@) =~= Seq::empty()); }
        r
    }

    fn pane_index(&self, pane_id: &str) -> (r: Option<usize>)
        ensures
            match r {
                Some(i) => i < self.muted_panes@.len() && self.muted_panes@[i as int]@ == pane_id@
                    && self.panes().contains(pane_id@),
                None => !self.panes().contains(pane_id@),
            },
    {
        let mut i: usize = 0;
        while i < self.muted_panes.len()
            invariant
                i <= self.muted_panes.len(),
                forall|j: int| 0 <= j < i ==> (#[trigger] self.muted_panes@[j])@ != pane_id@,
            decreases self.muted_panes.len() - i,
        {
            if str_equal(self.muted_panes[i].as_str(), pane_id) {
                proof { assert(string_views(self.muted_panes@)[i as int] == pane_id@); }
                return Some(i);
            }
            i = i + 1;
        }
        proof {
            if self.panes().contains(pane_id@) {
                let sv = string_views(self.muted_panes@);
                let j = choose|j: int| 0 <= j < sv.len() && sv[j] == pane_id@;
                assert(self.muted_panes@[j]@ != pane_id@);
            }
        }
        None
    }

    fn type_index(&self, t: NotificationType) -> (r: Option<usize>)
        ensures
            match r {
                Some(i) => i < self.muted_types@.len() && self.muted_types@[i as int] == t
                    && self.types().contains(t),
                None => !self.types().contains(t),
            },
    {
        let mut i: usize = 0;
        while i < self.muted_types.len()
            invariant
                i <= self.muted_types.len(),
                forall|j: int| 0 <= j < i ==> self.muted_types@[j] != t,
            decreases self.muted_types.len() - i,
        {
            if self.muted_types[i] == t {
                proof { assert(self.muted_types@[i as int] == t); }
                return Some(i);
            }
            i = i + 1;
        }
        None
    }

    /// Whether a notification of `pane_id` and kind `notif_type` is muted at time `now`.
    pub fn is_muted_at(&self, pane_id: &str, notif_type: NotificationType, now: u64) -> (r: bool)
        ensures
            r == self.muted_at(pane_id@, notif_type, now),
    {
        if self.global_mute {
            return true;
        }
        if self.is_temporarily_muted_at(now) {
            return true;
        }
        if self.pane_index(pane_id).is_some() {
            return true;
        }
        if self.type_index(notif_type).is_some() {
            return true;
        }
        false
    }

    /// Whether a notification of `pane_id` and kind `notif_type` is muted now, by the
    /// system clock.
    pub fn is_muted(&self, pane_id: &str, notif_type: NotificationType) -> (r: bool)
        ensures
            self.global_mute || self.panes().contains(pane_id@) || self.types().contains(notif_type) ==> r,
            self.temporary_mute_until is None ==> r == self.muted_at(pane_id@, notif_type, 0),
            exists|now: u64| r == #[trigger] self.muted_at(pane_id@, notif_type, now),
    {
        let now = now_millis();
        self.is_muted_at(pane_id, notif_type, now)
    }

    /// Mutes everything.
    pub fn enable_global_mute(&mut self)
        ensures
            *final(self) == (MuteSettings { global_mute: true, ..*old(self) }),
    {
        self.global_mute = true;
    }

    /// Ends the global mute.
    pub fn disable_global_mute(&mut self)
        ensures
            *final(self) == (MuteSettings { global_mute: false, ..*old(self) }),
    {
        self.global_mute = false;
    }

    /// Flips the global mute and returns the new value.
    pub fn toggle_global_mute(&mut self) -> (r: bool)
        ensures
            *final(self) == (MuteSettings { global_mute: !old(self).global_mute, ..*old(self) }),
            r == final(self).global_mute,
    {
        self.global_mute = !self.global_mute;
        self.global_mute
    }

    /// Mutes a pane.
    pub fn mute_pane(&mut self, pane_id: &str)
        requires
            old(self).wf(),
        ensures
            final(self).wf(),
            final(self).panes() == old(self).panes().insert(pane_id@),
            final(self).muted_types == old(self).muted_types,
            final(self).global_mute == old(self).global_mute,
            final(self).temporary_mute_until == old(self).temporary_mute_until,
    {
        match self.pane_index(pane_id) {
            Some(_) => {
                proof { assert(old(self).panes().insert(pane_id@) =~= old(self).panes()); }
            },
            None => {
                let ghost before = string_views(self.muted_panes@);
                self.muted_panes.push(pane_id.to_string());
                proof {
                    let after = string_views(self.muted_panes@);
                    assert(after =~= before.push(pane_id@));
                    assert forall|x: Seq<char>| after.contains(x) <==> (before.contains(x) || x == pane_id@) by {
                        if after.contains(x) {
                            let j = choose|j: int| 0 <= j < after.len() && after[j] == x;
                            if j < before.len() { assert(before[j] == x); }
                        }
                        if before.contains(x) {
                            let j = choose|j: int| 0 <= j < before.len() && before[j] == x;
                            assert(after[j] == x);
                        }
                        if x == pane_id@ { assert(after[before.len() as int] == x); }
                    }
                    assert(self.panes() =~= old(self).panes().insert(pane_id@));
                }
            },
        }
    }

    /// Unmutes a pane.
    pub fn unmute_pane(&mut self, pane_id: &str)
        requires
            old(self).wf(),
        ensures
            final(self).wf(),
            final(self).panes() == old(self).panes().remove(pane_id@),
            final(self).muted_types == old(self).muted_types,
            final(self).global_mute == old(self).global_mute,
            final(self).temporary_mute_until == old(self).temporary_mute_until,
    {
        match self.pane_index(pane_id) {
            Some(i) => {
                let ghost before = string_views(self.muted_panes@);
                self.muted_panes.remove(i);
                proof {
                    let after = string_views(self.muted_panes@);
                    assert(after =~= before.remove(i as int));
                    assert(before[i as int] == pane_id@);
                    assert forall|x: Seq<char>| after.contains(x) <==> (before.contains(x) && x != pane_id@) by {
                        if after.contains(x) {
                            let j = choose|j: int| 0 <= j < after.len() && after[j] == x;
                            if j < i {
                                assert(before[j] == x);
                                assert(before[j] != before[i as int]);
                            } else {
                                assert(before[j + 1] == x);
                                assert(before[j + 1] != before[i as int]);
                            }
                        }
                        if before.contains(x) && x != pane_id@ {
                            let j = choose|j: int| 0 <= j < before.len() && before[j] == x;
                            if j < i { assert(after[j] == x); } else { assert(j != i); assert(after[j - 1] == x); }
                        }
                    }
                    assert(self.panes() =~= old(self).panes().remove(pane_id@));
                }
            },
            None => {
                proof { assert(old(self).panes().remove(pane_id@) =~= old(self).panes()); }
            },
        }
    }

    /// Flips the mute of a pane; `true` when it is muted afterwards.
    pub fn toggle_pane_mute(&mut self, pane_id: &str) -> (r: bool)
        requires
            old(self).wf(),
        ensures
            final(self).wf(),
            r == !old(self).panes().contains(pane_id@),
            final(self).panes() == (if r { old(self).panes().insert(pane_id@) } else { old(self).panes().remove(pane_id@) }),
            final(self).muted_types == old(self).muted_types,
            final(self).global_mute == old(self).global_mute,
            final(self).temporary_mute_until == old(self).temporary_mute_until,
    {
        if self.pane_index(pane_id).is_some() {
            self.unmute_pane(pane_id);
            false
        } else {
            self.mute_pane(pane_id);
            true
        }
    }

    /// Whether a pane is muted.
    pub fn is_pane_muted(&self, pane_id: &str) -> (r: bool)
        ensures
            r == self.panes().contains(pane_id@),
    {
        self.pane_index(pane_id).is_some()
    }

    /// Mutes a kind.
    pub fn mute_type(&mut self, notif_type: NotificationType)
        requires
            old(self).wf(),
        ensures
            final(self).wf(),
            final(self).types() == old(self).types().insert(notif_type),
            final(self).muted_panes == old(self).muted_panes,
            final(self).global_mute == old(self).global_mute,
            final(self).temporary_mute_until == old(self).temporary_mute_until,
    {
        match self.type_index(notif_type) {
            Some(_) => {
                proof { assert(old(self).types().insert(notif_type) =~= old(self).types()); }
            },
            None => {
                self.muted_types.push(notif_type);
                proof {
                    let before = old(self).muted_types@;
                    let after = self.muted_types@;
                    assert forall|x: NotificationType| after.contains(x) <==> (before.contains(x) || x == notif_type) by {
                        if after.contains(x) {
                            let j = choose|j: int| 0 <= j < after.len() && after[j] == x;
                            if j < before.len() { assert(before[j] == x); }
                        }
                        if before.contains(x) {
                            let j = choose|j: int| 0 <= j < before.len() && before[j] == x;
                            assert(after[j] == x);
                        }
                        if x == notif_type { assert(after[before.len() as int] == x); }
                    }
                    assert(self.types() =~= old(self).types().insert(notif_type));
                }
            },
        }
    }

    /// Unmutes a kind.
    pub fn unmute_type(&mut self, notif_type: NotificationType)
        requires
            old(self).wf(),
        ensures
            final(self).wf(),
            final(self).types() == old(self).types().remove(notif_type),
            final(self).muted_panes == old(self).muted_panes,
            final(self).global_mute == old(self).global_mute,
            final(self).temporary_mute_until == old(self).temporary_mute_until,
    {
        match self.type_index(notif_type) {
            Some(i) => {
                let ghost before = self.muted_types@;
                self.muted_types.remove(i);
                proof {
                    let after = self.muted_types@;
                    assert forall|x: NotificationType| after.contains(x) <==> (before.contains(x) && x != notif_type) by {
                        if after.contains(x) {
                            let j = choose|j: int| 0 <= j < after.len() && after[j] == x;
                            if j < i { assert(before[j] == x); } else { assert(before[j + 1] == x); }
                        }
                        if before.contains(x) && x != notif_type {
                            let j = choose|j: int| 0 <= j < before.len() && before[j] == x;
                            if j < i { assert(after[j] == x); } else { assert(j != i); assert(after[j - 1] == x); }
                        }
                    }
                    assert(self.types() =~= old(self).types().remove(notif_type));
                }
            },
            None => {
                proof { assert(old(self).types().remove(notif_type) =~= old(self).types()); }
            },
        }
    }

    /// Flips the mute of a kind; `true` when it is muted afterwards.
    pub fn toggle_type_mute(&mut self, notif_type: NotificationType) -> (r: bool)
        requires
            old(self).wf(),
        ensures
            final(self).wf(),
            r == !old(self).types().contains(notif_type),
            final(self).types() == (if r { old(self).types().insert(notif_type) } else { old(self).types().remove(notif_type) }),
            final(self).muted_panes == old(self).muted_panes,
            final(self).global_mute == old(self).global_mute,
            final(self).temporary_mute_until == old(self).temporary_mute_until,
    {
        if self.type_index(notif_type).is_some() {
            self.unmute_type(notif_type);
            false
        } else {
            self.mute_type(notif_type);
            true
        }
    }

    /// Whether a kind is muted.
    pub fn is_type_muted(&self, notif_type: NotificationType) -> (r: bool)
        ensures
            r == self.types().contains(notif_type),
    {
        self.type_index(notif_type).is_some()
    }

    /// Mutes everything for `duration` milliseconds from `now` (up to the largest time).
    pub fn enable_temporary_mute_at(&mut self, duration: u64, now: u64)
        ensures
            *final(self) == (MuteSettings { temporary_mute_until: Some(mute_end(now, duration)), ..*old(self) }),
    {
        self.temporary_mute_until = Some(now.saturating_add(duration));
    }

    /// Mutes everything for `duration` milliseconds from now, by the system clock.
    pub fn enable_temporary_mute(&mut self, duration: u64)
        ensures
            final(self).temporary_mute_until is Some,
            final(self).global_mute == old(self).global_mute,
            final(self).muted_panes == old(self).muted_panes,
            final(self).muted_types == old(self).muted_types,
            exists|now: u64| final(self).temporary_mute_until == Some(#[trigger] mute_end(now, duration)),
    {
        let now = now_millis();
        self.enable_temporary_mute_at(duration, now);
    }

    /// Ends the temporary mute.
    pub fn disable_temporary_mute(&mut self)
        ensures
            *final(self) == (MuteSettings { temporary_mute_until: None, ..*old(self) }),
    {
        self.temporary_mute_until = None;
    }

    /// Whether the temporary mute is active at time `now`.
    pub fn is_temporarily_muted_at(&self, now: u64) -> (r: bool)
        ensures
            r == temp_active(self.temporary_mute_until, now),
    {
        match self.temporary_mute_until {
            Some(until) => now < until,
            None => false,
        }
    }

    /// Whether the temporary mute is active now, by the system clock.
    pub fn is_temporarily_muted(&self) -> (r: bool)
        ensures
            self.temporary_mute_until is None ==> !r,
            exists|now: u64| r == #[trigger] temp_active(self.temporary_mute_until, now),
    {
        let now = now_millis();
        self.is_temporarily_muted_at(now)
    }

    /// Milliseconds left of the temporary mute at time `now` (0 once it is over); `None`
    /// without a temporary mute.
    pub fn temporary_mute_remaining_at(&self, now: u64) -> (r: Option<u64>)
        ensures
            r == mute_remaining(self.temporary_mute_until, now),
    {
        match self.temporary_mute_until {
            Some(until) => Some(if now < until { until - now } else { 0 }),
            None => None,
        }
    }

    /// Milliseconds left of the temporary mute now, by the system clock.
    pub fn temporary_mute_remaining(&self) -> (r: Option<u64>)
        ensures
            r is Some <==> self.temporary_mute_until is Some,
            exists|now: u64| r == #[trigger] mute_remaining(self.temporary_mute_until, now),
    {
        let now = now_millis();
        self.temporary_mute_remaining_at(now)
    }

    /// Clears every mute.
    pub fn clear_all(&mut self)
        ensures
            !final(self).global_mute,
            final(self).muted_panes@.len() == 0,
            final(self).muted_types@.len() == 0,
            final(self).temporary_mute_until is None,
            final(self).wf(),
    {
        self.global_mute = false;
        self.muted_panes = Vec::new();
        self.muted_types = Vec::new();
        self.temporary_mute_until = None;
        proof { assert(string_views(self.muted_panes@) =~= Seq::empty()); }
    }

    /// How many panes are muted.
    pub fn muted_pane_count(&self) -> (r: usize)
        requires
            self.wf(),
        ensures
            r == self.muted_panes@.len(),
    {
        self.muted_panes.len()
    }

    /// The muted panes.
    pub fn muted_panes(&self) -> (r: &Vec<String>)
        ensures
            r == &self.muted_panes,
    {
        &self.muted_panes
    }

    /// The muted kinds.
    pub fn muted_types(&self) -> (r: &Vec<NotificationType>)
        ensures
            r == &self.muted_types,
    {
        &self.muted_types
    }
}

impl Default for MuteSettings {
    fn default() -> (r: Self)
        ensures
            !r.global_mute,
            r.muted_panes@.len() == 0,
            r.muted_types@.len() == 0,
            r.temporary_mute_until is None,
    {
        MuteSettings::new()
    }
}

/// Muting a pane mutes its notifications of every kind at every time; unmuting it (with
/// no other mute in force) lets them through again.
pub proof fn law_pane_mute_round_trip(s: MuteSettings, s1: MuteSettings, s2: MuteSettings, p: Seq<char>, t: NotificationType, now: u64)
    requires
        s1.panes() == s.panes().insert(p),
        s1.types() == s.types(),
        s1.global_mute == s.global_mute,
        s1.temporary_mute_until == s.temporary_mute_until,
        s2.panes() == s1.panes().remove(p),
        s2.types() == s1.types(),
        s2.global_mute == s1.global_mute,
        s2.temporary_mute_until == s1.temporary_mute_until,
    ensures
        s1.muted_at(p, t, now),
        s2.muted_at(p, t, now) == (s.global_mute || temp_active(s.temporary_mute_until, now) || s.types().contains(t)),
{
}

/// The global mute silences every pane and kind; without any mute nothing is silenced.
pub proof fn law_global_mute(s: MuteSettings, p: Seq<char>, t: NotificationType, now: u64)
    ensures
        s.global_mute ==> s.muted_at(p, t, now),
        !s.global_mute && s.temporary_mute_until is None && s.muted_panes@.len() == 0 && s.muted_types@.len() == 0
            ==> !s.muted_at(p, t, now),
{
    if s.muted_panes@.len() == 0 {
        assert(string_views(s.muted_panes@) =~= Seq::empty());
        assert(!string_views(s.muted_panes@).contains(p));
    }
}

} // verus!
