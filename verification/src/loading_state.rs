//! Loading spinners, toast messages and the network status, with time in milliseconds.
use vstd::prelude::*;
use crate::clock::now_millis;
use crate::text::{str_equal, extend_str, push_decimal, decimal, string_from_chars};

verus! {

/// Spinner animation state.
#[derive(Clone, Copy, Debug, PartialEq, Eq, Structural)]
pub enum SpinnerState {
    Idle,
    /// Spinning since `start_time` (milliseconds since the Unix epoch), showing `frame`.
    Spinning { start_time: u64, frame: usize },
    Paused,
}

/// The frames of a spinner and the time between them.
#[derive(Clone, Debug)]
pub struct SpinnerConfig {
    pub frames: Vec<&'static str>,
    pub interval_ms: u64,
}

/// The default frames: braille dots.
pub open spec fn default_frames() -> Seq<Seq<char>> {
    seq!["⠋"@, "⠙"@, "⠹"@, "⠸"@, "⠼"@, "⠴"@, "⠦"@, "⠧"@, "⠇"@, "⠏"@]
}

/// Texts of static strings.
pub open spec fn frames_view(v: Seq<&'static str>) -> Seq<Seq<char>> {
    v.map_values(|s: &'static str| s@)
}

impl Default for SpinnerConfig {
    fn default() -> (r: Self)
        ensures
            frames_view(r.frames@) == default_frames(),
            r.interval_ms == 80,
    {
        let frames: Vec<&'static str> = vec!["⠋", "⠙", "⠹", "⠸", "⠼", "⠴", "⠦", "⠧", "⠇", "⠏"];
        proof { assert(frames_view(frames@) =~= default_frames()); }
        SpinnerConfig { frames, interval_ms: 80 }
    }
}

/// A loading spinner.
#[derive(Clone, Debug)]
pub struct Spinner {
    pub state: SpinnerState,
    pub config: SpinnerConfig,
    /// When the frame last advanced, in milliseconds since the Unix epoch.
    pub last_update: u64,
}

/// The state and time of the last advance after a tick at time `now`: a spinning
/// spinner moves to the next frame (cyclically) once an interval has passed since the
/// last advance; otherwise nothing changes.
pub open spec fn tick_spec(s: Spinner, now: u64) -> (SpinnerState, u64) {
    match s.state {
        SpinnerState::Spinning { start_time, frame } => if now >= s.last_update && now - s.last_update >= s.config.interval_ms {
            (SpinnerState::Spinning { start_time, frame: ((frame + 1) as int % (s.config.frames@.len() as int)) as usize }, now)
        } else {
            (s.state, s.last_update)
        },
        _ => (s.state, s.last_update),
    }
}

/// Milliseconds spent spinning at time `now`; `None` unless spinning.
pub open spec fn elapsed_spec(state: SpinnerState, now: u64) -> Option<u64> {
    match state {
        SpinnerState::Spinning { start_time, frame: _ } => Some(if now >= start_time { (now - start_time) as u64 } else { 0 }),
        _ => None,
    }
}

impl Spinner {
    /// An idle spinner with the default frames.
    pub fn new() -> (r: Self)
        ensures
            r.state == SpinnerState::Idle,
            frames_view(r.config.frames@) == default_frames(),
            r.config.interval_ms == 80,
    {
        Spinner { state: SpinnerState::Idle, config: SpinnerConfig::default(), last_update: now_millis() }
    }

    /// Starts spinning at time `now` from the first frame.
    pub fn start_at(&mut self, now: u64)
        ensures
            final(self).state == (SpinnerState::Spinning { start_time: now, frame: 0 }),
            final(self).last_update == now,
            final(self).config == old(self).config,
    {
        self.state = SpinnerState::Spinning { start_time: now, frame: 0 };
        self.last_update = now;
    }

    /// Starts spinning now, by the system clock, from the first frame.
    pub fn start(&mut self)
        ensures
            final(self).state matches SpinnerState::Spinning { start_time, frame } && frame == 0
                && final(self).last_update == start_time,
            final(self).config == old(self).config,
    {
        self.start_at(now_millis());
    }

    /// Stops.
    pub fn stop(&mut self)
        ensures
            final(self).state == SpinnerState::Idle,
            final(self).config == old(self).config,
            final(self).last_update == old(self).last_update,
    {
        self.state = SpinnerState::Idle;
    }

    /// Pauses a spinning spinner.
    pub fn pause(&mut self)
        ensures
            final(self).state == (if old(self).state is Spinning { SpinnerState::Paused } else { old(self).state }),
            final(self).config == old(self).config,
            final(self).last_update == old(self).last_update,
    {
        if self.is_spinning() {
            self.state = SpinnerState::Paused;
        }
    }

    /// Resumes a paused spinner at time `now`, from the first frame.
    pub fn resume_at(&mut self, now: u64)
        ensures
            final(self).state == (if old(self).state is Paused { SpinnerState::Spinning { start_time: now, frame: 0 } } else { old(self).state }),
            final(self).config == old(self).config,
            final(self).last_update == old(self).last_update,
    {
        match self.state {
            SpinnerState::Paused => {
                self.state = SpinnerState::Spinning { start_time: now, frame: 0 };
            },
            _ => {},
        }
    }

    /// Resumes a paused spinner now, by the system clock, from the first frame.
    pub fn resume(&mut self)
        ensures
            old(self).state is Paused ==> (final(self).state matches SpinnerState::Spinning { start_time: _, frame } && frame == 0),
            !(old(self).state is Paused) ==> final(self).state == old(self).state,
            final(self).config == old(self).config,
    {
        self.resume_at(now_millis());
    }

    /// At time `now`, advances to the next frame (cyclically) once an interval has passed
    /// since the last advance.
    pub fn tick_at(&mut self, now: u64)
        requires
            old(self).state is Spinning ==> old(self).config.frames@.len() > 0 && old(self).state->frame < usize::MAX,
        ensures
            final(self).config == old(self).config,
            (final(self).state, final(self).last_update) == tick_spec(*old(self), now),
    {
        match self.state {
            SpinnerState::Spinning { start_time, frame } => {
                if now >= self.last_update && now - self.last_update >= self.config.interval_ms {
                    self.state = SpinnerState::Spinning { start_time, frame: (frame + 1) % self.config.frames.len() };
                    self.last_update = now;
                }
            },
            _ => {},
        }
    }

    /// Advances the frame as `tick_at` does, at the current time by the system clock.
    pub fn tick(&mut self)
        requires
            old(self).state is Spinning ==> old(self).config.frames@.len() > 0 && old(self).state->frame < usize::MAX,
        ensures
            final(self).config == old(self).config,
            exists|now: u64| (final(self).state, final(self).last_update) == #[trigger] tick_spec(*old(self), now),
    {
        let now = now_millis();
        self.tick_at(now);
    }

    /// The frame to show: a blank unless spinning on an existing frame.
    pub fn current_frame(&self) -> (r: &'static str)
        ensures
            r@ == (match self.state {
                SpinnerState::Spinning { start_time: _, frame } => if frame < self.config.frames@.len() {
                    self.config.frames@[frame as int]@
                } else {
                    " "@
                },
                _ => " "@,
            }),
    {
        match self.state {
            SpinnerState::Spinning { frame, .. } => {
                if frame < self.config.frames.len() { self.config.frames[frame] } else { " " }
            },
            _ => " ",
        }
    }

    /// Whether it spins.
    pub fn is_spinning(&self) -> (r: bool)
        ensures
            r == (self.state is Spinning),
    {
        match self.state {
            SpinnerState::Spinning { .. } => true,
            _ => false,
        }
    }

    /// Milliseconds spent spinning at time `now`; `None` unless spinning.
    pub fn elapsed_at(&self, now: u64) -> (r: Option<u64>)
        ensures
            r == elapsed_spec(self.state, now),
    {
        match self.state {
            SpinnerState::Spinning { start_time, .. } => Some(if now >= start_time { now - start_time } else { 0 }),
            _ => None,
        }
    }

    /// Milliseconds spent spinning now, by the system clock; `None` unless spinning.
    pub fn elapsed(&self) -> (r: Option<u64>)
        ensures
            r is Some <==> self.state is Spinning,
            exists|now: u64| r == #[trigger] elapsed_spec(self.state, now),
    {
        let now = now_millis();
        self.elapsed_at(now)
    }
}

impl Default for Spinner {
    fn default() -> (r: Self)
        ensures
            r.state == SpinnerState::Idle,
            frames_view(r.config.frames@) == default_frames(),
            r.config.interval_ms == 80,
    {
        Spinner::new()
    }
}

/// Kinds of toast.
#[derive(Clone, Copy, Debug, PartialEq, Eq, Structural)]
pub enum ToastType {
    Info,
    Success,
    Warning,
    Error,
}

/// A toast message, dismissed after its duration unless it has none.
#[derive(Debug)]
pub struct Toast {
    pub id: String,
    pub message: String,
    pub toast_type: ToastType,
    /// Milliseconds since the Unix epoch.
    pub created_at: u64,
    /// Milliseconds; `None` keeps the toast until it is removed.
    pub duration: Option<u64>,
    pub action: Option<String>,
}

impl Clone for Toast {
    fn clone(&self) -> (r: Self)
        ensures
            r == *self,
    {
        Toast {
            id: self.id.clone(),
            message: self.message.clone(),
            toast_type: self.toast_type,
            created_at: self.created_at,
            duration: self.duration,
            action: match &self.action {
                Some(a) => Some(a.clone()),
                None => None,
            },
        }
    }
}

/// Whether a toast made at `created_at` lasting `duration` has expired at time `now`.
pub open spec fn expired_at(created_at: u64, duration: Option<u64>, now: u64) -> bool {
    duration matches Some(d) && (if now >= created_at { now - created_at } else { 0 }) > d
}

/// Milliseconds left at time `now` of a toast made at `created_at` lasting `duration`
/// (0 once over); `None` without a duration.
pub open spec fn remaining_spec(created_at: u64, duration: Option<u64>, now: u64) -> Option<u64> {
    match duration {
        Some(d) => {
            let e: int = if now >= created_at { now - created_at } else { 0 };
            Some(if e < d { (d - e) as u64 } else { 0 })
        },
        None => None,
    }
}

impl Toast {
    /// A toast made at time `now`, lasting 5 seconds, without action.
    pub fn new_at(id: &str, message: &str, toast_type: ToastType, now: u64) -> (r: Self)
        ensures
            r.id@ == id@,
            r.message@ == message@,
            r.toast_type == toast_type,
            r.created_at == now,
            r.duration == Some(5000u64),
            r.action is None,
    {
        Toast { id: id.to_string(), message: message.to_string(), toast_type, created_at: now, duration: Some(5000), action: None }
    }

    /// A toast made now, by the system clock, lasting 5 seconds, without action.
    pub fn new(id: &str, message: &str, toast_type: ToastType) -> (r: Self)
        ensures
            r.id@ == id@,
            r.message@ == message@,
            r.toast_type == toast_type,
            r.duration == Some(5000u64),
            r.action is None,
    {
        Toast::new_at(id, message, toast_type, now_millis())
    }

    /// An information toast made now.
    pub fn info(id: &str, message: &str) -> (r: Self)
        ensures
            r.id@ == id@, r.message@ == message@, r.toast_type == ToastType::Info,
            r.duration == Some(5000u64), r.action is None,
    {
        Toast::new(id, message, ToastType::Info)
    }

    /// A success toast made now.
    pub fn success(id: &str, message: &str) -> (r: Self)
        ensures
            r.id@ == id@, r.message@ == message@, r.toast_type == ToastType::Success,
            r.duration == Some(5000u64), r.action is None,
    {
        Toast::new(id, message, ToastType::Success)
    }

    /// A warning toast made now.
    pub fn warning(id: &str, message: &str) -> (r: Self)
        ensures
            r.id@ == id@, r.message@ == message@, r.toast_type == ToastType::Warning,
            r.duration == Some(5000u64), r.action is None,
    {
        Toast::new(id, message, ToastType::Warning)
    }

    /// An error toast made now.
    pub fn error(id: &str, message: &str) -> (r: Self)
        ensures
            r.id@ == id@, r.message@ == message@, r.toast_type == ToastType::Error,
            r.duration == Some(5000u64), r.action is None,
    {
        Toast::new(id, message, ToastType::Error)
    }

    /// The same toast lasting `duration` milliseconds.
    pub fn with_duration(self, duration: u64) -> (r: Self)
        ensures
            r == (Toast { duration: Some(duration), ..self }),
    {
        let mut t = self;
        t.duration = Some(duration);
        t
    }

    /// The same toast, kept until removed.
    pub fn persistent(self) -> (r: Self)
        ensures
            r == (Toast { duration: None, ..self }),
    {
        let mut t = self;
        t.duration = None;
        t
    }

    /// The same toast with an action button.
    pub fn with_action(self, action: &str) -> (r: Self)
        ensures
            r.action matches Some(a) && a@ == action@,
            r.id == self.id, r.message == self.message, r.toast_type == self.toast_type,
            r.created_at == self.created_at, r.duration == self.duration,
    {
        let mut t = self;
        t.action = Some(action.to_string());
        t
    }

    /// Whether it has expired at time `now`.
    pub fn is_expired_at(&self, now: u64) -> (r: bool)
        ensures
            r == expired_at(self.created_at, self.duration, now),
    {
        match self.duration {
            Some(d) => (if now >= self.created_at { now - self.created_at } else { 0 }) > d,
            None => false,
        }
    }

    /// Whether it has expired now, by the system clock; never without a duration.
    pub fn is_expired(&self) -> (r: bool)
        ensures
            self.duration is None ==> !r,
            exists|now: u64| r == #[trigger] expired_at(self.created_at, self.duration, now),
    {
        let now = now_millis();
        self.is_expired_at(now)
    }

    /// Milliseconds left at time `now` (0 once over); `None` without a duration.
    pub fn remaining_at(&self, now: u64) -> (r: Option<u64>)
        ensures
            r == remaining_spec(self.created_at, self.duration, now),
    {
        match self.duration {
            Some(d) => {
                let e = if now >= self.created_at { now - self.created_at } else { 0 };
                Some(if e < d { d - e } else { 0 })
            },
            None => None,
        }
    }

    /// Milliseconds left now, by the system clock; `None` without a duration.
    pub fn remaining(&self) -> (r: Option<u64>)
        ensures
            r is Some <==> self.duration is Some,
            r matches Some(x) ==> x <= self.duration->0,
            exists|now: u64| r == #[trigger] remaining_spec(self.created_at, self.duration, now),
    {
        let now = now_millis();
        self.remaining_at(now)
    }

    /// The icon of its kind.
    pub fn icon(&self) -> (r: &'static str)
        ensures
            r@ == (match self.toast_type {
                ToastType::Info => "ℹ️"@,
                ToastType::Success => "✅"@,
                ToastType::Warning => "⚠️"@,
                ToastType::Error => "❌"@,
            }),
    {
        match self.toast_type {
            ToastType::Info => "ℹ️",
            ToastType::Success => "✅",
            ToastType::Warning => "⚠️",
            ToastType::Error => "❌",
        }
    }
}

/// The toasts whose id is not `id`, in order.
pub open spec fn toasts_without(v: Seq<Toast>, id: Seq<char>) -> Seq<Toast>
    decreases v.len(),
{
    if v.len() == 0 { Seq::empty() } else {
        let r = toasts_without(v.drop_last(), id);
        if v.last().id@ != id { r.push(v.last()) } else { r }
    }
}

/// The toasts not expired at time `now`, in order.
pub open spec fn toasts_active(v: Seq<Toast>, now: u64) -> Seq<Toast>
    decreases v.len(),
{
    if v.len() == 0 { Seq::empty() } else {
        let r = toasts_active(v.drop_last(), now);
        if !expired_at(v.last().created_at, v.last().duration, now) { r.push(v.last()) } else { r }
    }
}

/// Keeps the newest toasts, at most `max_toasts` of them.
#[derive(Clone, Debug)]
pub struct ToastManager {
    pub toasts: Vec<Toast>,
    pub max_toasts: usize,
}

proof fn lemma_toast_filters_shorter(v: Seq<Toast>, id: Seq<char>, now: u64)
    ensures
        toasts_without(v, id).len() <= v.len(),
        toasts_active(v, now).len() <= v.len(),
    decreases v.len(),
{
    if v.len() > 0 {
        lemma_toast_filters_shorter(v.drop_last(), id, now);
    }
}

/// Whether the references `r` lead to the toasts `s`, in order.
pub open spec fn same_toasts(r: Seq<&Toast>, s: Seq<Toast>) -> bool {
    r.len() == s.len() && forall|i: int| 0 <= i < r.len() ==> *(#[trigger] r[i]) == s[i]
}

impl ToastManager {
    /// No toasts, at most five.
    pub fn new() -> (r: Self)
        ensures
            r.toasts@.len() == 0,
            r.max_toasts == 5,
    {
        ToastManager { toasts: Vec::new(), max_toasts: 5 }
    }

    fn without_id(v: &Vec<Toast>, id: &str) -> (r: Vec<Toast>)
        ensures
            r@ == toasts_without(v@, id@),
    {
        let mut out: Vec<Toast> = Vec::new();
        let mut i: usize = 0;
        while i < v.len()
            invariant
                i <= v.len(),
                out@ == toasts_without(v@.take(i as int), id@),
            decreases v.len() - i,
        {
            proof { assert(v@.take(i + 1).drop_last() =~= v@.take(i as int)); }
            if !str_equal(v[i].id.as_str(), id) {
                out.push(v[i].clone());
            }
            i = i + 1;
        }
        proof { assert(v@.take(v@.len() as int) =~= v@); }
        out
    }

    /// Puts `toast` first, replacing any toast with its id, and keeps at most
    /// `max_toasts`.
    pub fn add(&mut self, toast: Toast)
        ensures
            final(self).max_toasts == old(self).max_toasts,
            final(self).toasts@ == ({
                let s = seq![toast].add(toasts_without(old(self).toasts@, toast.id@));
                if s.len() > old(self).max_toasts { s.take(old(self).max_toasts as int) } else { s }
            }),
    {
        let mut kept = ToastManager::without_id(&self.toasts, toast.id.as_str());
        kept.insert(0, toast);
        if kept.len() > self.max_toasts {
            kept.truncate(self.max_toasts);
        }
        self.toasts = kept;
        proof {
            let s = seq![toast].add(toasts_without(old(self).toasts@, toast.id@));
            assert(s.len() > old(self).max_toasts ==> self.toasts@ =~= s.take(old(self).max_toasts as int));
            assert(s.len() <= old(self).max_toasts ==> self.toasts@ =~= s);
        }
    }

    /// Removes the toasts with id `id`.
    pub fn remove(&mut self, id: &str)
        ensures
            final(self).toasts@ == toasts_without(old(self).toasts@, id@),
            final(self).max_toasts == old(self).max_toasts,
    {
        self.toasts = ToastManager::without_id(&self.toasts, id);
    }

    /// Removes every toast.
    pub fn clear(&mut self)
        ensures
            final(self).toasts@.len() == 0,
            final(self).max_toasts == old(self).max_toasts,
    {
        self.toasts = Vec::new();
    }

    /// The toasts not expired at time `now`, in order.
    pub fn active_toasts_at(&self, now: u64) -> (r: Vec<&Toast>)
        ensures
            r@.len() == toasts_active(self.toasts@, now).len(),
            forall|i: int| 0 <= i < r@.len() ==> *(#[trigger] r@[i]) == toasts_active(self.toasts@, now)[i],
    {
        let ghost v = self.toasts@;
        let mut out: Vec<&Toast> = Vec::new();
        let mut i: usize = 0;
        while i < self.toasts.len()
            invariant
                i <= self.toasts.len(),
                v == self.toasts@,
                out@.len() == toasts_active(v.take(i as int), now).len(),
                forall|k: int| 0 <= k < out@.len() ==> *(#[trigger] out@[k]) == toasts_active(v.take(i as int), now)[k],
            decreases self.toasts.len() - i,
        {
            proof { assert(v.take(i + 1).drop_last() =~= v.take(i as int)); }
            let t = &self.toasts[i];
            if !t.is_expired_at(now) {
                out.push(t);
            }
            i = i + 1;
        }
        proof { assert(v.take(v.len() as int) =~= v); }
        out
    }

    /// Removes the toasts expired at time `now`.
    pub fn cleanup_at(&mut self, now: u64)
        ensures
            final(self).toasts@ == toasts_active(old(self).toasts@, now),
            final(self).max_toasts == old(self).max_toasts,
    {
        let ghost v = self.toasts@;
        let mut out: Vec<Toast> = Vec::new();
        let mut i: usize = 0;
        while i < self.toasts.len()
            invariant
                i <= self.toasts.len(),
                v == self.toasts@,
                out@ == toasts_active(v.take(i as int), now),
            decreases self.toasts.len() - i,
        {
            proof { assert(v.take(i + 1).drop_last() =~= v.take(i as int)); }
            if !self.toasts[i].is_expired_at(now) {
                out.push(self.toasts[i].clone());
            }
            i = i + 1;
        }
        proof { assert(v.take(v.len() as int) =~= v); }
        self.toasts = out;
    }

    /// Removes the toasts expired now, by the system clock.
    pub fn cleanup(&mut self)
        ensures
            final(self).max_toasts == old(self).max_toasts,
            final(self).toasts@.len() <= old(self).toasts@.len(),
            exists|now: u64| final(self).toasts@ == #[trigger] toasts_active(old(self).toasts@, now),
    {
        let now = now_millis();
        proof { lemma_toast_filters_shorter(self.toasts@, Seq::empty(), now); }
        self.cleanup_at(now);
    }

    /// The toasts not expired now, by the system clock, in order.
    pub fn active_toasts(&self) -> (r: Vec<&Toast>)
        ensures
            r@.len() <= self.toasts@.len(),
            exists|now: u64| same_toasts(r@, #[trigger] toasts_active(self.toasts@, now)),
    {
        let now = now_millis();
        proof { lemma_toast_filters_shorter(self.toasts@, Seq::empty(), now); }
        self.active_toasts_at(now)
    }

    /// Whether there is any toast.
    pub fn has_toasts(&self) -> (r: bool)
        ensures
            r == (self.toasts@.len() > 0),
    {
        self.toasts.len() > 0
    }

    /// How many toasts are not expired at time `now`.
    pub fn active_count_at(&self, now: u64) -> (r: usize)
        ensures
            r == toasts_active(self.toasts@, now).len(),
    {
        self.active_toasts_at(now).len()
    }

    /// How many toasts are not expired now, by the system clock.
    pub fn active_count(&self) -> (r: usize)
        ensures
            r <= self.toasts@.len(),
            (forall|i: int| 0 <= i < self.toasts@.len() ==> (#[trigger] self.toasts@[i]).duration is None)
                ==> r == self.toasts@.len(),
            exists|now: u64| r == (#[trigger] toasts_active(self.toasts@, now)).len(),
    {
        let now = now_millis();
        proof {
            lemma_toast_filters_shorter(self.toasts@, Seq::empty(), now);
            lemma_persistent_active(self.toasts@, now);
        }
        self.active_count_at(now)
    }
}

impl Default for ToastManager {
    fn default() -> (r: Self)
        ensures
            r.toasts@.len() == 0,
            r.max_toasts == 0,
    {
        ToastManager { toasts: Vec::new(), max_toasts: 0 }
    }
}

proof fn lemma_persistent_active(v: Seq<Toast>, now: u64)
    ensures
        (forall|i: int| 0 <= i < v.len() ==> (#[trigger] v[i]).duration is None) ==> toasts_active(v, now) == v,
    decreases v.len(),
{
    if v.len() > 0 {
        lemma_persistent_active(v.drop_last(), now);
        if forall|i: int| 0 <= i < v.len() ==> (#[trigger] v[i]).duration is None {
            assert(forall|i: int| 0 <= i < v.drop_last().len() ==> (#[trigger] v.drop_last()[i]).duration is None) by {
                assert forall|i: int| 0 <= i < v.drop_last().len() implies (#[trigger] v.drop_last()[i]).duration is None by {
                    assert(v[i].duration is None);
                }
            }
            assert(v.last().duration is None);
            assert(v.drop_last().push(v.last()) =~= v);
        }
    }
}

/// Adding a toast makes it the first, and leaves no other toast with its id, as long as
/// at least one toast may be kept.
pub proof fn law_add_replaces(v: Seq<Toast>, max: usize, t: Toast)
    requires
        max > 0,
    ensures
        ({
            let s = seq![t].add(toasts_without(v, t.id@));
            let r = if s.len() > max { s.take(max as int) } else { s };
            &&& r.len() > 0 && r[0] == t
            &&& r.len() <= max
            &&& forall|i: int| 1 <= i < r.len() ==> (#[trigger] r[i]).id@ != t.id@
        }),
{
    lemma_without_has_none(v, t.id@);
}

proof fn lemma_without_has_none(v: Seq<Toast>, id: Seq<char>)
    ensures
        forall|i: int| 0 <= i < toasts_without(v, id).len() ==> (#[trigger] toasts_without(v, id)[i]).id@ != id,
    decreases v.len(),
{
    if v.len() > 0 {
        lemma_without_has_none(v.drop_last(), id);
    }
}

/// Network connection state.
#[derive(Clone, Copy, Debug, PartialEq, Eq, Structural)]
pub enum ConnectionState {
    Connected,
    Disconnected,
    Reconnecting { attempt: u32 },
    Unknown,
}

/// Network status, with the times of the last connection and disconnection in
/// milliseconds since the Unix epoch.
#[derive(Clone, Copy, Debug)]
pub struct NetworkStatus {
    pub state: ConnectionState,
    pub last_connected: Option<u64>,
    pub last_disconnected: Option<u64>,
}

/// Milliseconds since the last disconnection at time `now`, while not connected.
pub open spec fn disconnection_spec(s: NetworkStatus, now: u64) -> Option<u64> {
    if s.state is Connected { None } else {
        match s.last_disconnected {
            Some(t) => Some(if now >= t { (now - t) as u64 } else { 0 }),
            None => None,
        }
    }
}

impl NetworkStatus {
    /// Unknown state, no times.
    pub fn new() -> (r: Self)
        ensures
            r == (NetworkStatus { state: ConnectionState::Unknown, last_connected: None, last_disconnected: None }),
    {
        NetworkStatus { state: ConnectionState::Unknown, last_connected: None, last_disconnected: None }
    }

    /// Connected at time `now`.
    pub fn mark_connected_at(&mut self, now: u64)
        ensures
            *final(self) == (NetworkStatus { state: ConnectionState::Connected, last_connected: Some(now), ..*old(self) }),
    {
        self.state = ConnectionState::Connected;
        self.last_connected = Some(now);
    }

    /// Connected now, by the system clock.
    pub fn mark_connected(&mut self)
        ensures
            final(self).state == ConnectionState::Connected,
            final(self).last_connected is Some,
            final(self).last_disconnected == old(self).last_disconnected,
    {
        self.mark_connected_at(now_millis());
    }

    /// Disconnected at time `now`.
    pub fn mark_disconnected_at(&mut self, now: u64)
        ensures
            *final(self) == (NetworkStatus { state: ConnectionState::Disconnected, last_disconnected: Some(now), ..*old(self) }),
    {
        self.state = ConnectionState::Disconnected;
        self.last_disconnected = Some(now);
    }

    /// Disconnected now, by the system clock.
    pub fn mark_disconnected(&mut self)
        ensures
            final(self).state == ConnectionState::Disconnected,
            final(self).last_disconnected is Some,
            final(self).last_connected == old(self).last_connected,
    {
        self.mark_disconnected_at(now_millis());
    }

    /// Reconnecting, at the given attempt.
    pub fn mark_reconnecting(&mut self, attempt: u32)
        ensures
            *final(self) == (NetworkStatus { state: ConnectionState::Reconnecting { attempt }, ..*old(self) }),
    {
        self.state = ConnectionState::Reconnecting { attempt };
    }

    /// Whether connected.
    pub fn is_connected(&self) -> (r: bool)
        ensures
            r == (self.state is Connected),
    {
        match self.state {
            ConnectionState::Connected => true,
            _ => false,
        }
    }

    /// Milliseconds since the last disconnection at time `now`, while not connected.
    pub fn disconnection_duration_at(&self, now: u64) -> (r: Option<u64>)
        ensures
            r == disconnection_spec(*self, now),
    {
        if self.is_connected() {
            None
        } else {
            match self.last_disconnected {
                Some(t) => Some(if now >= t { now - t } else { 0 }),
                None => None,
            }
        }
    }

    /// Milliseconds since the last disconnection now, by the system clock, while not
    /// connected.
    pub fn disconnection_duration(&self) -> (r: Option<u64>)
        ensures
            r is Some <==> !(self.state is Connected) && self.last_disconnected is Some,
            exists|now: u64| r == #[trigger] disconnection_spec(*self, now),
    {
        let now = now_millis();
        self.disconnection_duration_at(now)
    }

    /// Status text.
    pub fn status_message(&self) -> (r: &'static str)
        ensures
            r@ == (match self.state {
                ConnectionState::Connected => "Connected"@,
                ConnectionState::Disconnected => "Disconnected"@,
                ConnectionState::Reconnecting { .. } => "Reconnecting..."@,
                ConnectionState::Unknown => "Checking connection..."@,
            }),
    {
        match self.state {
            ConnectionState::Connected => "Connected",
            ConnectionState::Disconnected => "Disconnected",
            ConnectionState::Reconnecting { .. } => "Reconnecting...",
            ConnectionState::Unknown => "Checking connection...",
        }
    }

    /// Status icon.
    pub fn status_icon(&self) -> (r: &'static str)
        ensures
            r@ == (match self.state {
                ConnectionState::Connected => "🟢"@,
                ConnectionState::Disconnected => "🔴"@,
                ConnectionState::Reconnecting { .. } => "🟡"@,
                ConnectionState::Unknown => "⚪"@,
            }),
    {
        match self.state {
            ConnectionState::Connected => "🟢",
            ConnectionState::Disconnected => "🔴",
            ConnectionState::Reconnecting { .. } => "🟡",
            ConnectionState::Unknown => "⚪",
        }
    }
}

impl Default for NetworkStatus {
    fn default() -> (r: Self)
        ensures
            r == (NetworkStatus { state: ConnectionState::Unknown, last_connected: None, last_disconnected: None }),
    {
        NetworkStatus::new()
    }
}

/// The counting part of a retry policy: attempts made, attempts allowed, and the last
/// error.
#[derive(Clone, Debug)]
pub struct RetryCounter {
    pub attempt: u32,
    pub max_attempts: u32,
    pub last_error: Option<String>,
}

/// The message for a retry counter: the failed attempt out of the allowed ones while
/// another try remains; else how many attempts failed and the last error.
pub open spec fn retry_message_spec(c: RetryCounter) -> Seq<char> {
    if c.attempt < c.max_attempts {
        "Attempt "@ + decimal(c.attempt as nat) + "/"@ + decimal(c.max_attempts as nat) + " failed. Retrying..."@
    } else {
        "Failed after "@ + decimal(c.attempt as nat) + " attempts: "@
            + match c.last_error { Some(e) => e@, None => "Unknown error"@ }
    }
}

impl RetryCounter {
    /// No attempt yet, with `max_attempts` allowed.
    pub fn new(max_attempts: u32) -> (r: Self)
        ensures
            r.attempt == 0,
            r.max_attempts == max_attempts,
            r.last_error is None,
    {
        RetryCounter { attempt: 0, max_attempts, last_error: None }
    }

    /// Another attempt is allowed.
    pub fn can_retry(&self) -> (r: bool)
        ensures
            r == (self.attempt < self.max_attempts),
    {
        self.attempt < self.max_attempts
    }

    /// Records a failed attempt and its error; returns whether another is allowed.
    pub fn record_attempt(&mut self, error: &str) -> (r: bool)
        requires
            old(self).attempt < u32::MAX,
        ensures
            final(self).attempt == old(self).attempt + 1,
            final(self).max_attempts == old(self).max_attempts,
            final(self).last_error matches Some(e) && e@ == error@,
            r == (final(self).attempt < final(self).max_attempts),
    {
        self.attempt = self.attempt + 1;
        self.last_error = Some(error.to_string());
        self.can_retry()
    }

    /// Starts over: no attempt, no error.
    pub fn reset(&mut self)
        ensures
            final(self).attempt == 0,
            final(self).max_attempts == old(self).max_attempts,
            final(self).last_error is None,
    {
        self.attempt = 0;
        self.last_error = None;
    }

    /// The message shown for the counter.
    pub fn status_message(&self) -> (r: String)
        ensures
            r@ == retry_message_spec(*self),
    {
        let mut v: Vec<char> = Vec::new();
        if self.can_retry() {
            extend_str(&mut v, "Attempt ");
            push_decimal(&mut v, self.attempt as u64);
            extend_str(&mut v, "/");
            push_decimal(&mut v, self.max_attempts as u64);
            extend_str(&mut v, " failed. Retrying...");
        } else {
            extend_str(&mut v, "Failed after ");
            push_decimal(&mut v, self.attempt as u64);
            extend_str(&mut v, " attempts: ");
            match &self.last_error {
                Some(e) => extend_str(&mut v, e.as_str()),
                None => extend_str(&mut v, "Unknown error"),
            }
        }
        string_from_chars(&v)
    }
}

} // verus!
