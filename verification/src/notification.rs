//! Notifications about agent panes: type, message, read flag, merge count and age.
use vstd::prelude::*;
use crate::clock::now_millis;
use crate::text::{extend_str, string_from_chars, decimal, push_decimal};

verus! {

/// Kinds of notification.
#[derive(Debug, Clone, Copy, PartialEq, Eq, Hash, Structural)]
pub enum NotificationType {
    /// An error occurred (highest priority).
    Error,
    /// The agent waits for input.
    Waiting,
    /// The agent waits for a confirmation or approval.
    WaitingConfirm,
    /// General information.
    Info,
}

/// Priority of a kind (higher is more important).
pub open spec fn type_priority(t: NotificationType) -> u8 {
    match t {
        NotificationType::Error => 3,
        NotificationType::Waiting => 2,
        NotificationType::WaitingConfirm => 2,
        NotificationType::Info => 1,
    }
}

/// Display text of a kind.
pub open spec fn type_text(t: NotificationType) -> Seq<char> {
    match t {
        NotificationType::Error => "Error"@,
        NotificationType::Waiting => "Waiting"@,
        NotificationType::WaitingConfirm => "Confirm"@,
        NotificationType::Info => "Info"@,
    }
}

/// Icon of a kind.
pub open spec fn type_icon(t: NotificationType) -> Seq<char> {
    match t {
        NotificationType::Error => "✕"@,
        NotificationType::Waiting => "◐"@,
        NotificationType::WaitingConfirm => "▲"@,
        NotificationType::Info => "ℹ"@,
    }
}

/// Name of a kind as `{:?}` writes it.
pub open spec fn kind_name(t: NotificationType) -> Seq<char> {
    match t {
        NotificationType::Error => "Error"@,
        NotificationType::Waiting => "Waiting"@,
        NotificationType::WaitingConfirm => "WaitingConfirm"@,
        NotificationType::Info => "Info"@,
    }
}

impl NotificationType {
    /// Priority level (higher is more important).
    pub fn priority(&self) -> (r: u8)
        ensures
            r == type_priority(*self),
    {
        match self {
            NotificationType::Error => 3,
            NotificationType::Waiting => 2,
            NotificationType::WaitingConfirm => 2,
            NotificationType::Info => 1,
        }
    }

    /// Display text.
    pub fn display_text(&self) -> (r: &'static str)
        ensures
            r@ == type_text(*self),
    {
        match self {
            NotificationType::Error => "Error",
            NotificationType::Waiting => "Waiting",
            NotificationType::WaitingConfirm => "Confirm",
            NotificationType::Info => "Info",
        }
    }

    /// Icon.
    pub fn icon(&self) -> (r: &'static str)
        ensures
            r@ == type_icon(*self),
    {
        match self {
            NotificationType::Error => "✕",
            NotificationType::Waiting => "◐",
            NotificationType::WaitingConfirm => "▲",
            NotificationType::Info => "ℹ",
        }
    }

    /// Name as `{:?}` writes it.
    pub fn name(&self) -> (r: &'static str)
        ensures
            r@ == kind_name(*self),
    {
        match self {
            NotificationType::Error => "Error",
            NotificationType::Waiting => "Waiting",
            NotificationType::WaitingConfirm => "WaitingConfirm",
            NotificationType::Info => "Info",
        }
    }
}

/// The bits that every version-4 UUID has set in the same way: version 4, variant 1.
pub open spec fn is_v4_uuid(v: u128) -> bool {
    v & 0xF000_C000_0000_0000_0000u128 == 0x4000_8000_0000_0000_0000u128
}

/// A fresh random identifier: the bits of a new version-4 UUID.
/// Trusted: calls `uuid::Uuid::new_v4` and `as_u128`. The value is random; all that is
/// stated is the version and variant bits that `new_v4` sets. `new_v4` panics where the
/// system gives no random bytes.
#[verifier::external_body]
pub(crate) fn random_id() -> (r: u128)
    ensures
        is_v4_uuid(r),
{
    uuid::Uuid::new_v4().as_u128()
}

/// A notification as plain values.
pub struct NotificationView {
    pub id: u128,
    pub pane_id: Seq<char>,
    pub notif_type: NotificationType,
    pub message: Seq<char>,
    pub timestamp: u64,
    pub read: bool,
    pub merge_count: u32,
}

/// Key under which notifications merge: pane, `:` and the kind's name.
pub open spec fn group_key_spec(pane_id: Seq<char>, t: NotificationType) -> Seq<char> {
    pane_id + ":"@ + kind_name(t)
}

/// Milliseconds from `timestamp` to `now` (0 where `now` is earlier).
pub open spec fn age_at_spec(timestamp: u64, now: u64) -> u64 {
    if now >= timestamp { (now - timestamp) as u64 } else { 0 }
}

/// The message, followed by ` ×` and the count when merged more than once.
pub open spec fn display_message_spec(n: NotificationView) -> Seq<char> {
    if n.merge_count > 1 { n.message + " ×"@ + decimal(n.merge_count as nat) } else { n.message }
}

/// A single notification.
#[derive(Debug)]
pub struct Notification {
    id: u128,
    pane_id: String,
    notif_type: NotificationType,
    message: String,
    timestamp: u64,
    read: bool,
    merge_count: u32,
}

impl View for Notification {
    type V = NotificationView;

    closed spec fn view(&self) -> NotificationView {
        NotificationView {
            id: self.id,
            pane_id: self.pane_id@,
            notif_type: self.notif_type,
            message: self.message@,
            timestamp: self.timestamp,
            read: self.read,
            merge_count: self.merge_count,
        }
    }
}

impl Clone for Notification {
    fn clone(&self) -> (r: Self)
        ensures
            r@ == self@,
    {
        Notification {
            id: self.id,
            pane_id: self.pane_id.clone(),
            notif_type: self.notif_type,
            message: self.message.clone(),
            timestamp: self.timestamp,
            read: self.read,
            merge_count: self.merge_count,
        }
    }
}

impl Notification {
    /// A new unread notification, counted once, with a fresh random id and the current
    /// time.
    pub fn new(pane_id: &str, notif_type: NotificationType, message: &str) -> (r: Self)
        ensures
            r@.pane_id == pane_id@,
            r@.notif_type == notif_type,
            r@.message == message@,
            r@.read == false,
            r@.merge_count == 1,
            is_v4_uuid(r@.id),
    {
        let id = random_id();
        let now = now_millis();
        Notification::with_id_at(id, pane_id, notif_type, message, now)
    }

    /// A new unread notification, counted once, with the given id and timestamp.
    pub fn with_id_at(id: u128, pane_id: &str, notif_type: NotificationType, message: &str, timestamp: u64) -> (r: Self)
        ensures
            r@ == (NotificationView { id, pane_id: pane_id@, notif_type, message: message@, timestamp, read: false, merge_count: 1 }),
    {
        Notification {
            id,
            pane_id: pane_id.to_string(),
            notif_type,
            message: message.to_string(),
            timestamp,
            read: false,
            merge_count: 1,
        }
    }

    /// The id.
    pub fn id(&self) -> (r: u128)
        ensures
            r == self@.id,
    {
        self.id
    }

    /// The pane.
    pub fn pane_id(&self) -> (r: &str)
        ensures
            r@ == self@.pane_id,
    {
        self.pane_id.as_str()
    }

    /// The kind.
    pub fn notif_type(&self) -> (r: NotificationType)
        ensures
            r == self@.notif_type,
    {
        self.notif_type
    }

    /// The message.
    pub fn message(&self) -> (r: &str)
        ensures
            r@ == self@.message,
    {
        self.message.as_str()
    }

    /// When it was made, in milliseconds since the Unix epoch.
    pub fn timestamp(&self) -> (r: u64)
        ensures
            r == self@.timestamp,
    {
        self.timestamp
    }

    /// Whether it has been read.
    pub fn is_read(&self) -> (r: bool)
        ensures
            r == self@.read,
    {
        self.read
    }

    /// Marks it read.
    pub fn mark_as_read(&mut self)
        ensures
            final(self)@ == (NotificationView { read: true, ..old(self)@ }),
    {
        self.read = true;
    }

    /// Marks it unread.
    pub fn mark_as_unread(&mut self)
        ensures
            final(self)@ == (NotificationView { read: false, ..old(self)@ }),
    {
        self.read = false;
    }

    /// How many notifications were merged into this one.
    pub fn merge_count(&self) -> (r: u32)
        ensures
            r == self@.merge_count,
    {
        self.merge_count
    }

    /// Counts one more merged notification.
    pub fn increment_merge_count(&mut self)
        requires
            old(self)@.merge_count < u32::MAX,
        ensures
            final(self)@ == (NotificationView { merge_count: (old(self)@.merge_count + 1) as u32, ..old(self)@ }),
    {
        self.merge_count = self.merge_count + 1;
    }

    /// Age in milliseconds at time `now`.
    pub fn age_at(&self, now: u64) -> (r: u64)
        ensures
            r == age_at_spec(self@.timestamp, now),
    {
        if now >= self.timestamp { now - self.timestamp } else { 0 }
    }

    /// Age in milliseconds now, by the system clock.
    pub fn age(&self) -> (r: u64)
        ensures
            exists|now: u64| r == #[trigger] age_at_spec(self@.timestamp, now),
    {
        let now = now_millis();
        self.age_at(now)
    }

    /// Whether it is younger than `window` milliseconds at time `now`.
    pub fn is_recent_at(&self, window: u64, now: u64) -> (r: bool)
        ensures
            r == (age_at_spec(self@.timestamp, now) < window),
    {
        self.age_at(now) < window
    }

    /// Whether it is younger than `window` milliseconds now, by the system clock.
    pub fn is_recent(&self, window: u64) -> (r: bool)
        ensures
            r ==> window > 0,
            exists|now: u64| r == (#[trigger] age_at_spec(self@.timestamp, now) < window),
    {
        let now = now_millis();
        self.is_recent_at(window, now)
    }

    /// Key under which notifications merge.
    pub fn group_key(&self) -> (r: String)
        ensures
            r@ == group_key_spec(self@.pane_id, self@.notif_type),
    {
        let mut v: Vec<char> = Vec::new();
        extend_str(&mut v, self.pane_id.as_str());
        extend_str(&mut v, ":");
        extend_str(&mut v, self.notif_type.name());
        string_from_chars(&v)
    }

    /// The message, with ` ×` and the count when merged more than once.
    pub fn display_message(&self) -> (r: String)
        ensures
            r@ == display_message_spec(self@),
    {
        if self.merge_count > 1 {
            let mut v: Vec<char> = Vec::new();
            extend_str(&mut v, self.message.as_str());
            extend_str(&mut v, " ×");
            push_decimal(&mut v, self.merge_count as u64);
            string_from_chars(&v)
        } else {
            self.message.clone()
        }
    }
}

/// Counts of notifications by kind.
#[derive(Debug, Clone)]
pub struct NotificationSummary {
    pub total: usize,
    pub unread: usize,
    pub error_count: usize,
    pub waiting_count: usize,
    pub waiting_confirm_count: usize,
    pub info_count: usize,
}

impl NotificationSummary {
    /// All counts zero.
    pub fn new() -> (r: Self)
        ensures
            r.total == 0 && r.unread == 0 && r.error_count == 0 && r.waiting_count == 0
                && r.waiting_confirm_count == 0 && r.info_count == 0,
    {
        NotificationSummary { total: 0, unread: 0, error_count: 0, waiting_count: 0, waiting_confirm_count: 0, info_count: 0 }
    }

    /// Whether there is any notification.
    pub fn has_notifications(&self) -> (r: bool)
        ensures
            r == (self.total > 0),
    {
        self.total > 0
    }

    /// Whether any is unread.
    pub fn has_unread(&self) -> (r: bool)
        ensures
            r == (self.unread > 0),
    {
        self.unread > 0
    }

    /// Whether any is an error.
    pub fn has_errors(&self) -> (r: bool)
        ensures
            r == (self.error_count > 0),
    {
        self.error_count > 0
    }

    /// Whether any waits for input or confirmation.
    pub fn has_waiting(&self) -> (r: bool)
        ensures
            r == (self.waiting_count > 0 || self.waiting_confirm_count > 0),
    {
        self.waiting_count > 0 || self.waiting_confirm_count > 0
    }
}

impl Default for NotificationSummary {
    fn default() -> (r: Self)
        ensures
            r.total == 0 && r.unread == 0 && r.error_count == 0 && r.waiting_count == 0
                && r.waiting_confirm_count == 0 && r.info_count == 0,
    {
        NotificationSummary::new()
    }
}

} // verus!
