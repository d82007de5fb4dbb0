//! Keeps the most recent notifications, newest first, merging a new one into a recent
//! one of the same pane and kind.
use vstd::prelude::*;
use crate::clock::now_millis;
use crate::notification::{Notification, NotificationView, NotificationSummary, NotificationType,
    group_key_spec, age_at_spec, random_id, is_v4_uuid};
use crate::text::{extend_str, string_from_chars, str_equal};

verus! {

/// How many notifications are kept at most.
pub const MAX_NOTIFICATIONS: usize = 100;

/// Default merge window, in milliseconds.
pub const DEFAULT_MERGE_WINDOW_MS: u64 = 30000;

/// Views of notifications.
pub open spec fn views(v: Seq<Notification>) -> Seq<NotificationView> {
    v.map_values(|n: Notification| n@)
}

/// Views of borrowed notifications.
pub open spec fn ref_views(v: Seq<&Notification>) -> Seq<NotificationView> {
    v.map_values(|n: &Notification| n@)
}

/// The manager as plain values: notifications newest first, and the merge window.
pub struct ManagerView {
    pub notifications: Seq<NotificationView>,
    pub merge_window: u64,
}

/// A notification that a new one with key `key` merges into at time `now`.
pub open spec fn mergeable(n: NotificationView, key: Seq<char>, now: u64, window: u64) -> bool {
    group_key_spec(n.pane_id, n.notif_type) == key && age_at_spec(n.timestamp, now) < window
}

/// Index of the first notification from `i` on that `key` merges into.
pub open spec fn first_mergeable(ns: Seq<NotificationView>, key: Seq<char>, now: u64, window: u64, i: int) -> Option<int>
    decreases ns.len() - i,
{
    if i < 0 || i >= ns.len() {
        None
    } else if mergeable(ns[i], key, now, window) {
        Some(i)
    } else {
        first_mergeable(ns, key, now, window, i + 1)
    }
}

/// The first `MAX_NOTIFICATIONS` of `s`.
pub open spec fn capped(s: Seq<NotificationView>) -> Seq<NotificationView> {
    if s.len() > MAX_NOTIFICATIONS { s.take(MAX_NOTIFICATIONS as int) } else { s }
}

/// Adding a notification at time `now` with id `id`: merged into the first recent one
/// of the same pane and kind (counted once more and unread again; result `false`), or
/// put first as a new unread one, dropping the oldest beyond the limit (result `true`).
pub open spec fn add_spec(m: ManagerView, pane_id: Seq<char>, t: NotificationType, message: Seq<char>, now: u64, id: u128) -> (ManagerView, bool) {
    let key = group_key_spec(pane_id, t);
    match first_mergeable(m.notifications, key, now, m.merge_window, 0) {
        Some(k) => {
            let old_n = m.notifications[k];
            (ManagerView {
                notifications: m.notifications.update(k, NotificationView {
                    merge_count: (old_n.merge_count + 1) as u32,
                    read: false,
                    ..old_n
                }),
                ..m
            }, false)
        },
        None => {
            let n = NotificationView { id, pane_id, notif_type: t, message, timestamp: now, read: false, merge_count: 1 };
            (ManagerView { notifications: capped(seq![n] + m.notifications), ..m }, true)
        },
    }
}

/// Whether a merge at time `now` would overflow a merge count.
pub open spec fn merge_fits(m: ManagerView, pane_id: Seq<char>, t: NotificationType, now: u64) -> bool {
    match first_mergeable(m.notifications, group_key_spec(pane_id, t), now, m.merge_window, 0) {
        Some(k) => m.notifications[k].merge_count < u32::MAX,
        None => true,
    }
}

/// The unread ones, in order.
pub open spec fn unread_of(ns: Seq<NotificationView>) -> Seq<NotificationView>
    decreases ns.len(),
{
    if ns.len() == 0 { Seq::empty() } else {
        let r = unread_of(ns.drop_last());
        if !ns.last().read { r.push(ns.last()) } else { r }
    }
}

/// The ones of pane `p`, in order.
pub open spec fn of_pane(ns: Seq<NotificationView>, p: Seq<char>) -> Seq<NotificationView>
    decreases ns.len(),
{
    if ns.len() == 0 { Seq::empty() } else {
        let r = of_pane(ns.drop_last(), p);
        if ns.last().pane_id == p { r.push(ns.last()) } else { r }
    }
}

/// The ones of kind `t`, in order.
pub open spec fn of_type(ns: Seq<NotificationView>, t: NotificationType) -> Seq<NotificationView>
    decreases ns.len(),
{
    if ns.len() == 0 { Seq::empty() } else {
        let r = of_type(ns.drop_last(), t);
        if ns.last().notif_type == t { r.push(ns.last()) } else { r }
    }
}

/// The ones whose id is not `id`, in order.
pub open spec fn without_id(ns: Seq<NotificationView>, id: u128) -> Seq<NotificationView>
    decreases ns.len(),
{
    if ns.len() == 0 { Seq::empty() } else {
        let r = without_id(ns.drop_last(), id);
        if ns.last().id != id { r.push(ns.last()) } else { r }
    }
}

/// Index of the first one with id `id`.
pub open spec fn first_with_id(ns: Seq<NotificationView>, id: u128, i: int) -> Option<int>
    decreases ns.len() - i,
{
    if i < 0 || i >= ns.len() {
        None
    } else if ns[i].id == id {
        Some(i)
    } else {
        first_with_id(ns, id, i + 1)
    }
}

/// How many of kind `t` there are.
pub open spec fn count_type(ns: Seq<NotificationView>, t: NotificationType) -> nat {
    of_type(ns, t).len()
}

/// Manages all notifications.
#[derive(Debug)]
pub struct NotificationManager {
    notifications: Vec<Notification>,
    merge_window: u64,
}

impl View for NotificationManager {
    type V = ManagerView;

    closed spec fn view(&self) -> ManagerView {
        ManagerView { notifications: views(self.notifications@), merge_window: self.merge_window }
    }
}

proof fn lemma_filters_shorter(ns: Seq<NotificationView>, p: Seq<char>, t: NotificationType, id: u128)
    ensures
        unread_of(ns).len() <= ns.len(),
        of_pane(ns, p).len() <= ns.len(),
        of_type(ns, t).len() <= ns.len(),
        without_id(ns, id).len() <= ns.len(),
    decreases ns.len(),
{
    if ns.len() > 0 {
        lemma_filters_shorter(ns.drop_last(), p, t, id);
    }
}

proof fn lemma_first_mergeable(ns: Seq<NotificationView>, key: Seq<char>, now: u64, window: u64, i: int)
    requires
        0 <= i,
    ensures
        match first_mergeable(ns, key, now, window, i) {
            Some(k) => i <= k < ns.len() && mergeable(ns[k], key, now, window)
                && forall|j: int| i <= j < k ==> !mergeable(#[trigger] ns[j], key, now, window),
            None => forall|j: int| i <= j < ns.len() ==> !mergeable(#[trigger] ns[j], key, now, window),
        },
    decreases ns.len() - i,
{
    if i < ns.len() {
        lemma_first_mergeable(ns, key, now, window, i + 1);
    }
}

proof fn lemma_first_with_id(ns: Seq<NotificationView>, id: u128, i: int)
    requires
        0 <= i,
    ensures
        match first_with_id(ns, id, i) {
            Some(k) => i <= k < ns.len() && ns[k].id == id
                && forall|j: int| i <= j < k ==> (#[trigger] ns[j]).id != id,
            None => forall|j: int| i <= j < ns.len() ==> (#[trigger] ns[j]).id != id,
        },
    decreases ns.len() - i,
{
    if i < ns.len() {
        lemma_first_with_id(ns, id, i + 1);
    }
}

impl NotificationManager {
    /// The manager keeps at most `MAX_NOTIFICATIONS`.
    pub open spec fn wf(&self) -> bool {
        self@.notifications.len() <= MAX_NOTIFICATIONS
    }

    /// An empty manager with the default merge window.
    pub fn new() -> (r: Self)
        ensures
            r@ == (ManagerView { notifications: Seq::empty(), merge_window: DEFAULT_MERGE_WINDOW_MS }),
            r.wf(),
    {
        let r = NotificationManager { notifications: Vec::new(), merge_window: DEFAULT_MERGE_WINDOW_MS };
        proof { assert(views(r.notifications@) =~= Seq::empty()); }
        r
    }

    /// The same manager with another merge window, in milliseconds.
    pub fn with_merge_window(self, window: u64) -> (r: Self)
        ensures
            r@ == (ManagerView { merge_window: window, ..self@ }),
    {
        let mut s = self;
        s.merge_window = window;
        s
    }

    /// Adds a notification at time `now`, with id `id` where it is new; `true` when it
    /// was added, `false` when it was merged into a recent one.
    pub fn add_at(&mut self, pane_id: &str, notif_type: NotificationType, message: &str, now: u64, id: u128) -> (r: bool)
        requires
            old(self).wf(),
            merge_fits(old(self)@, pane_id@, notif_type, now),
        ensures
            (final(self)@, r) == add_spec(old(self)@, pane_id@, notif_type, message@, now, id),
            final(self).wf(),
    {
        let ghost ns = self@.notifications;
        let mut kv: Vec<char> = Vec::new();
        extend_str(&mut kv, pane_id);
        extend_str(&mut kv, ":");
        extend_str(&mut kv, notif_type.name());
        let key = string_from_chars(&kv);
        let ghost k = key@;
        proof { lemma_first_mergeable(ns, k, now, self.merge_window, 0); }
        let mut i: usize = 0;
        while i < self.notifications.len()
            invariant
                i <= self.notifications.len(),
                ns == views(self.notifications@),
                k == key@,
                k == group_key_spec(pane_id@, notif_type),
                ns == old(self)@.notifications,
                self.merge_window == old(self)@.merge_window,
                merge_fits(old(self)@, pane_id@, notif_type, now),
                self.wf(),
                forall|j: int| 0 <= j < i ==> !mergeable(#[trigger] ns[j], k, now, self.merge_window),
            decreases self.notifications.len() - i,
        {
            let nk = self.notifications[i].group_key();
            if str_equal(nk.as_str(), key.as_str()) && self.notifications[i].is_recent_at(self.merge_window, now) {
                proof {
                    assert(mergeable(ns[i as int], k, now, self.merge_window));
                    lemma_first_mergeable(ns, k, now, self.merge_window, 0);
                    assert(first_mergeable(ns, k, now, self.merge_window, 0) == Some(i as int));
                }
                let mut n = self.notifications[i].clone();
                n.increment_merge_count();
                n.mark_as_unread();
                let ghost before = self.notifications@;
                self.notifications.set(i, n);
                proof {
                    assert(views(self.notifications@) =~= views(before).update(i as int, n@));
                    assert(views(self.notifications@) =~= add_spec(old(self)@, pane_id@, notif_type, message@, now, id).0.notifications);
                }
                return false;
            }
            i = i + 1;
        }
        proof {
            assert(first_mergeable(ns, k, now, self.merge_window, 0) is None) by {
                lemma_first_mergeable(ns, k, now, self.merge_window, 0);
                if first_mergeable(ns, k, now, self.merge_window, 0) is Some {
                    let j = first_mergeable(ns, k, now, self.merge_window, 0)->0;
                    assert(!mergeable(ns[j], k, now, self.merge_window));
                }
            }
        }
        let n = Notification::with_id_at(id, pane_id, notif_type, message, now);
        self.notifications.insert(0, n);
        if self.notifications.len() > MAX_NOTIFICATIONS {
            self.notifications.pop();
        }
        proof {
            let nv = NotificationView { id, pane_id: pane_id@, notif_type, message: message@, timestamp: now, read: false, merge_count: 1 };
            assert(views(self.notifications@) =~= capped(seq![nv] + ns));
        }
        true
    }

    /// Adds a notification now, by the system clock; `true` when it was added, `false`
    /// when it was merged into a recent one. Where it is added, it is first, unread,
    /// counted once and has a fresh version-4 id. The notifications of the same pane and
    /// kind, any of which the new one may merge into, must be able to count once more.
    pub fn add(&mut self, pane_id: &str, notif_type: NotificationType, message: &str) -> (r: bool)
        requires
            old(self).wf(),
            forall|i: int| 0 <= i < old(self)@.notifications.len()
                && group_key_spec((#[trigger] old(self)@.notifications[i]).pane_id, old(self)@.notifications[i].notif_type) == group_key_spec(pane_id@, notif_type)
                ==> old(self)@.notifications[i].merge_count < u32::MAX,
        ensures
            final(self).wf(),
            final(self)@.merge_window == old(self)@.merge_window,
            r ==> final(self)@.notifications.len() > 0 && ({
                let n = final(self)@.notifications[0];
                &&& n.pane_id == pane_id@
                &&& n.notif_type == notif_type
                &&& n.message == message@
                &&& !n.read
                &&& n.merge_count == 1
                &&& is_v4_uuid(n.id)
            }),
            !r ==> final(self)@.notifications.len() == old(self)@.notifications.len(),
            exists|now: u64, id: u128| is_v4_uuid(id) && (final(self)@, r) == #[trigger] add_spec(old(self)@, pane_id@, notif_type, message@, now, id),
    {
        let now = now_millis();
        let id = random_id();
        proof {
            let ns = self@.notifications;
            lemma_first_mergeable(ns, group_key_spec(pane_id@, notif_type), now, self.merge_window, 0);
        }
        self.add_at(pane_id, notif_type, message, now, id)
    }

    /// All notifications, newest first.
    pub fn all(&self) -> (r: &Vec<Notification>)
        ensures
            views(r@) == self@.notifications,
    {
        &self.notifications
    }

    /// The unread notifications, newest first.
    pub fn unread(&self) -> (r: Vec<&Notification>)
        ensures
            ref_views(r@) == unread_of(self@.notifications),
    {
        let ghost ns = self@.notifications;
        let mut out: Vec<&Notification> = Vec::new();
        let mut i: usize = 0;
        while i < self.notifications.len()
            invariant
                i <= self.notifications.len(),
                ns == views(self.notifications@),
                ref_views(out@) == unread_of(ns.take(i as int)),
            decreases self.notifications.len() - i,
        {
            proof { assert(ns.take(i + 1).drop_last() =~= ns.take(i as int)); }
            let n = &self.notifications[i];
            if !n.is_read() {
                let ghost before = out@;
                out.push(n);
                proof { assert(ref_views(out@) =~= ref_views(before).push(n@)); }
            }
            i = i + 1;
        }
        proof { assert(ns.take(ns.len() as int) =~= ns); }
        out
    }

    /// The `count` newest notifications (all where there are fewer).
    pub fn recent(&self, count: usize) -> (r: Vec<&Notification>)
        ensures
            ref_views(r@) == self@.notifications.take(if count < self@.notifications.len() { count as int } else { self@.notifications.len() as int }),
    {
        let ghost ns = self@.notifications;
        let mut out: Vec<&Notification> = Vec::new();
        let mut i: usize = 0;
        while i < self.notifications.len() && i < count
            invariant
                i <= self.notifications.len(),
                i <= count,
                ns == views(self.notifications@),
                ref_views(out@) == ns.take(i as int),
            decreases self.notifications.len() - i,
        {
            let ghost before = out@;
            out.push(&self.notifications[i]);
            proof {
                assert(ref_views(out@) =~= ref_views(before).push(ns[i as int]));
                assert(ns.take(i + 1) =~= ns.take(i as int).push(ns[i as int]));
            }
            i = i + 1;
        }
        out
    }

    /// The notifications of one pane, newest first.
    pub fn by_pane(&self, pane_id: &str) -> (r: Vec<&Notification>)
        ensures
            ref_views(r@) == of_pane(self@.notifications, pane_id@),
    {
        let ghost ns = self@.notifications;
        let mut out: Vec<&Notification> = Vec::new();
        let mut i: usize = 0;
        while i < self.notifications.len()
            invariant
                i <= self.notifications.len(),
                ns == views(self.notifications@),
                ref_views(out@) == of_pane(ns.take(i as int), pane_id@),
            decreases self.notifications.len() - i,
        {
            proof { assert(ns.take(i + 1).drop_last() =~= ns.take(i as int)); }
            let n = &self.notifications[i];
            if str_equal(n.pane_id(), pane_id) {
                let ghost before = out@;
                out.push(n);
                proof { assert(ref_views(out@) =~= ref_views(before).push(n@)); }
            }
            i = i + 1;
        }
        proof { assert(ns.take(ns.len() as int) =~= ns); }
        out
    }

    /// The notifications of one kind, newest first.
    pub fn by_type(&self, notif_type: NotificationType) -> (r: Vec<&Notification>)
        ensures
            ref_views(r@) == of_type(self@.notifications, notif_type),
    {
        let ghost ns = self@.notifications;
        let mut out: Vec<&Notification> = Vec::new();
        let mut i: usize = 0;
        while i < self.notifications.len()
            invariant
                i <= self.notifications.len(),
                ns == views(self.notifications@),
                ref_views(out@) == of_type(ns.take(i as int), notif_type),
            decreases self.notifications.len() - i,
        {
            proof { assert(ns.take(i + 1).drop_last() =~= ns.take(i as int)); }
            let n = &self.notifications[i];
            if n.notif_type() == notif_type {
                let ghost before = out@;
                out.push(n);
                proof { assert(ref_views(out@) =~= ref_views(before).push(n@)); }
            }
            i = i + 1;
        }
        proof { assert(ns.take(ns.len() as int) =~= ns); }
        out
    }

    /// Marks the first notification with id `id` read; `false` when there is none.
    pub fn mark_read(&mut self, id: u128) -> (r: bool)
        ensures
            final(self)@.merge_window == old(self)@.merge_window,
            match first_with_id(old(self)@.notifications, id, 0) {
                Some(k) => r && final(self)@.notifications == old(self)@.notifications.update(k,
                    NotificationView { read: true, ..old(self)@.notifications[k] }),
                None => !r && final(self)@.notifications == old(self)@.notifications,
            },
    {
        let ghost ns = self@.notifications;
        proof { lemma_first_with_id(ns, id, 0); }
        let mut i: usize = 0;
        while i < self.notifications.len()
            invariant
                i <= self.notifications.len(),
                ns == views(self.notifications@),
                ns == old(self)@.notifications,
                self.merge_window == old(self)@.merge_window,
                forall|j: int| 0 <= j < i ==> (#[trigger] ns[j]).id != id,
            decreases self.notifications.len() - i,
        {
            if self.notifications[i].id() == id {
                proof {
                    lemma_first_with_id(ns, id, 0);
                    assert(first_with_id(ns, id, 0) == Some(i as int));
                }
                let mut n = self.notifications[i].clone();
                n.mark_as_read();
                let ghost before = self.notifications@;
                self.notifications.set(i, n);
                proof { assert(views(self.notifications@) =~= views(before).update(i as int, n@)); }
                proof { assert(views(self.notifications@) =~= ns.update(i as int, NotificationView { read: true, ..ns[i as int] })); }
                return true;
            }
            i = i + 1;
        }
        proof {
            lemma_first_with_id(ns, id, 0);
            if first_with_id(ns, id, 0) is Some {
                let j = first_with_id(ns, id, 0)->0;
                assert(ns[j].id != id);
            }
        }
        false
    }

    /// Marks every notification read.
    pub fn mark_all_read(&mut self)
        ensures
            final(self)@.merge_window == old(self)@.merge_window,
            final(self)@.notifications.len() == old(self)@.notifications.len(),
            forall|i: int| 0 <= i < old(self)@.notifications.len() ==>
                (#[trigger] final(self)@.notifications[i]) == (NotificationView { read: true, ..old(self)@.notifications[i] }),
    {
        let ghost ns = self@.notifications;
        let mut i: usize = 0;
        while i < self.notifications.len()
            invariant
                i <= self.notifications.len(),
                self.notifications@.len() == ns.len(),
                ns == old(self)@.notifications,
                self.merge_window == old(self)@.merge_window,
                forall|j: int| 0 <= j < i ==> (#[trigger] views(self.notifications@)[j]) == (NotificationView { read: true, ..ns[j] }),
                forall|j: int| i <= j < ns.len() ==> (#[trigger] views(self.notifications@)[j]) == ns[j],
            decreases self.notifications.len() - i,
        {
            assert(views(self.notifications@)[i as int] == ns[i as int]);
            let mut n = self.notifications[i].clone();
            n.mark_as_read();
            let ghost before = self.notifications@;
            self.notifications.set(i, n);
            proof {
                assert(views(self.notifications@) =~= views(before).update(i as int, n@));
                assert(n@ == (NotificationView { read: true, ..ns[i as int] }));
            }
            i = i + 1;
        }
    }

    /// Removes the notifications with id `id`; `true` when there was one.
    pub fn clear(&mut self, id: u128) -> (r: bool)
        ensures
            final(self)@ == (ManagerView { notifications: without_id(old(self)@.notifications, id), ..old(self)@ }),
            r == (without_id(old(self)@.notifications, id).len() < old(self)@.notifications.len()),
    {
        let ghost ns = self@.notifications;
        let mut kept: Vec<Notification> = Vec::new();
        let mut i: usize = 0;
        while i < self.notifications.len()
            invariant
                i <= self.notifications.len(),
                ns == views(self.notifications@),
                views(kept@) == without_id(ns.take(i as int), id),
            decreases self.notifications.len() - i,
        {
            proof { assert(ns.take(i + 1).drop_last() =~= ns.take(i as int)); }
            if self.notifications[i].id() != id {
                let ghost before = kept@;
                let n = self.notifications[i].clone();
                kept.push(n);
                proof { assert(views(kept@) =~= views(before).push(ns[i as int])); }
            }
            i = i + 1;
        }
        proof { assert(ns.take(ns.len() as int) =~= ns); }
        let initial = self.notifications.len();
        self.notifications = kept;
        self.notifications.len() < initial
    }

    /// Removes every notification.
    pub fn clear_all(&mut self)
        ensures
            final(self)@ == (ManagerView { notifications: Seq::empty(), ..old(self)@ }),
    {
        self.notifications = Vec::new();
        proof { assert(views(self.notifications@) =~= Seq::empty()); }
    }

    /// Removes the read notifications.
    pub fn clear_read(&mut self)
        ensures
            final(self)@ == (ManagerView { notifications: unread_of(old(self)@.notifications), ..old(self)@ }),
    {
        let ghost ns = self@.notifications;
        let mut kept: Vec<Notification> = Vec::new();
        let mut i: usize = 0;
        while i < self.notifications.len()
            invariant
                i <= self.notifications.len(),
                ns == views(self.notifications@),
                views(kept@) == unread_of(ns.take(i as int)),
            decreases self.notifications.len() - i,
        {
            proof { assert(ns.take(i + 1).drop_last() =~= ns.take(i as int)); }
            if !self.notifications[i].is_read() {
                let ghost before = kept@;
                let n = self.notifications[i].clone();
                kept.push(n);
                proof { assert(views(kept@) =~= views(before).push(ns[i as int])); }
            }
            i = i + 1;
        }
        proof { assert(ns.take(ns.len() as int) =~= ns); }
        self.notifications = kept;
    }

    /// How many notifications there are.
    pub fn count(&self) -> (r: usize)
        ensures
            r == self@.notifications.len(),
    {
        self.notifications.len()
    }

    /// How many are unread.
    pub fn unread_count(&self) -> (r: usize)
        ensures
            r == unread_of(self@.notifications).len(),
    {
        let ghost ns = self@.notifications;
        let mut n: usize = 0;
        let mut i: usize = 0;
        while i < self.notifications.len()
            invariant
                i <= self.notifications.len(),
                ns == views(self.notifications@),
                n == unread_of(ns.take(i as int)).len(),
                n <= i,
            decreases self.notifications.len() - i,
        {
            proof { assert(ns.take(i + 1).drop_last() =~= ns.take(i as int)); }
            if !self.notifications[i].is_read() {
                n = n + 1;
            }
            i = i + 1;
        }
        proof { assert(ns.take(ns.len() as int) =~= ns); }
        n
    }

    /// Whether there is none.
    pub fn is_empty(&self) -> (r: bool)
        ensures
            r == (self@.notifications.len() == 0),
    {
        self.notifications.len() == 0
    }

    /// Whether any is unread.
    pub fn has_unread(&self) -> (r: bool)
        ensures
            r == (unread_of(self@.notifications).len() > 0),
    {
        self.unread_count() > 0
    }

    /// Counts by read state and by kind.
    pub fn summary(&self) -> (r: NotificationSummary)
        ensures
            r.total == self@.notifications.len(),
            r.unread == unread_of(self@.notifications).len(),
            r.error_count == count_type(self@.notifications, NotificationType::Error),
            r.waiting_count == count_type(self@.notifications, NotificationType::Waiting),
            r.waiting_confirm_count == count_type(self@.notifications, NotificationType::WaitingConfirm),
            r.info_count == count_type(self@.notifications, NotificationType::Info),
    {
        let ghost ns = self@.notifications;
        let mut s = NotificationSummary::new();
        s.total = self.count();
        s.unread = self.unread_count();
        let mut i: usize = 0;
        while i < self.notifications.len()
            invariant
                i <= self.notifications.len(),
                ns == views(self.notifications@),
                s.total == ns.len(),
                s.unread == unread_of(ns).len(),
                s.error_count == count_type(ns.take(i as int), NotificationType::Error),
                s.waiting_count == count_type(ns.take(i as int), NotificationType::Waiting),
                s.waiting_confirm_count == count_type(ns.take(i as int), NotificationType::WaitingConfirm),
                s.info_count == count_type(ns.take(i as int), NotificationType::Info),
                s.error_count + s.waiting_count + s.waiting_confirm_count + s.info_count <= i,
            decreases self.notifications.len() - i,
        {
            proof { assert(ns.take(i + 1).drop_last() =~= ns.take(i as int)); }
            match self.notifications[i].notif_type() {
                NotificationType::Error => s.error_count = s.error_count + 1,
                NotificationType::Waiting => s.waiting_count = s.waiting_count + 1,
                NotificationType::WaitingConfirm => s.waiting_confirm_count = s.waiting_confirm_count + 1,
                NotificationType::Info => s.info_count = s.info_count + 1,
            }
            i = i + 1;
        }
        proof { assert(ns.take(ns.len() as int) =~= ns); }
        s
    }

    /// The newest notification.
    pub fn latest(&self) -> (r: Option<&Notification>)
        ensures
            self@.notifications.len() == 0 ==> r is None,
            self@.notifications.len() > 0 ==> (r matches Some(n) && n@ == self@.notifications[0]),
    {
        if self.notifications.len() == 0 { None } else { Some(&self.notifications[0]) }
    }

    /// The oldest notification.
    pub fn oldest(&self) -> (r: Option<&Notification>)
        ensures
            self@.notifications.len() == 0 ==> r is None,
            self@.notifications.len() > 0 ==> (r matches Some(n) && n@ == self@.notifications.last()),
    {
        if self.notifications.len() == 0 { None } else { Some(&self.notifications[self.notifications.len() - 1]) }
    }
}

impl Default for NotificationManager {
    fn default() -> (r: Self)
        ensures
            r@ == (ManagerView { notifications: Seq::empty(), merge_window: DEFAULT_MERGE_WINDOW_MS }),
    {
        NotificationManager::new()
    }
}


/// Every notification has exactly one kind: the counts by kind add up to the total.
pub proof fn law_kind_counts_sum(ns: Seq<NotificationView>)
    ensures
        count_type(ns, NotificationType::Error) + count_type(ns, NotificationType::Waiting)
            + count_type(ns, NotificationType::WaitingConfirm) + count_type(ns, NotificationType::Info) == ns.len(),
    decreases ns.len(),
{
    if ns.len() > 0 {
        law_kind_counts_sum(ns.drop_last());
    }
}

/// Adding at time `now` creates a notification exactly when none of the same pane and
/// kind is younger than the merge window. Then the new one, unread and counted once,
/// comes first, followed by the earlier ones in order, at most `MAX_NOTIFICATIONS` in
/// all. Otherwise the first such notification is counted once more and unread again,
/// and nothing else changes.
pub proof fn law_add_outcome(m: ManagerView, pane_id: Seq<char>, t: NotificationType, message: Seq<char>, now: u64, id: u128)
    requires
        m.notifications.len() <= MAX_NOTIFICATIONS,
    ensures
        ({
            let key = group_key_spec(pane_id, t);
            let ns = m.notifications;
            let (m2, created) = add_spec(m, pane_id, t, message, now, id);
            &&& m2.merge_window == m.merge_window
            &&& created <==> !(exists|i: int| 0 <= i < ns.len() && mergeable(ns[i], key, now, m.merge_window))
            &&& m2.notifications.len() <= MAX_NOTIFICATIONS
            &&& created ==> {
                &&& m2.notifications.len() == (if ns.len() < MAX_NOTIFICATIONS { ns.len() + 1 } else { MAX_NOTIFICATIONS as nat })
                &&& m2.notifications[0] == (NotificationView { id, pane_id, notif_type: t, message, timestamp: now, read: false, merge_count: 1 })
                &&& forall|i: int| 1 <= i < m2.notifications.len() ==> m2.notifications[i] == ns[i - 1]
            }
            &&& !created ==> exists|k: int| {
                &&& 0 <= k < ns.len()
                &&& mergeable(ns[k], key, now, m.merge_window)
                &&& (forall|j: int| 0 <= j < k ==> !mergeable(#[trigger] ns[j], key, now, m.merge_window))
                &&& m2.notifications == ns.update(k, NotificationView { merge_count: (ns[k].merge_count + 1) as u32, read: false, ..ns[k] })
            }
        }),
{
    let key = group_key_spec(pane_id, t);
    lemma_first_mergeable(m.notifications, key, now, m.merge_window, 0);
    match first_mergeable(m.notifications, key, now, m.merge_window, 0) {
        Some(k) => {
            assert(m.notifications.len() > 0);
        },
        None => {
            let n = NotificationView { id, pane_id, notif_type: t, message, timestamp: now, read: false, merge_count: 1 };
            let all = seq![n] + m.notifications;
            assert forall|i: int| 1 <= i < capped(all).len() implies capped(all)[i] == m.notifications[i - 1] by {
                assert(all[i] == m.notifications[i - 1]);
            }
        },
    }
}

/// Right after a notification is added, another one of the same pane and kind at the
/// same time merges into it whenever the merge window is not zero.
pub proof fn law_add_then_merge(m: ManagerView, pane_id: Seq<char>, t: NotificationType, m1: Seq<char>, m2: Seq<char>, now: u64, id1: u128, id2: u128)
    requires
        m.notifications.len() <= MAX_NOTIFICATIONS,
        m.merge_window > 0,
        add_spec(m, pane_id, t, m1, now, id1).1,
    ensures
        !add_spec(add_spec(m, pane_id, t, m1, now, id1).0, pane_id, t, m2, now, id2).1,
{
    let m2v = add_spec(m, pane_id, t, m1, now, id1).0;
    law_add_outcome(m, pane_id, t, m1, now, id1);
    assert(mergeable(m2v.notifications[0], group_key_spec(pane_id, t), now, m2v.merge_window));
}

/// Once all are read, none is unread.
pub proof fn law_all_read_none_unread(ns: Seq<NotificationView>)
    requires
        forall|i: int| 0 <= i < ns.len() ==> (#[trigger] ns[i]).read,
    ensures
        unread_of(ns).len() == 0,
    decreases ns.len(),
{
    if ns.len() > 0 {
        assert(ns.last().read);
        law_all_read_none_unread(ns.drop_last());
    }
}

/// What is left after removing the read ones is all unread.
pub proof fn law_unread_of_all_unread(ns: Seq<NotificationView>)
    ensures
        forall|i: int| 0 <= i < unread_of(ns).len() ==> !(#[trigger] unread_of(ns)[i]).read,
        unread_of(unread_of(ns)) == unread_of(ns),
    decreases ns.len(),
{
    if ns.len() > 0 {
        law_unread_of_all_unread(ns.drop_last());
        let r = unread_of(ns.drop_last());
        if !ns.last().read {
            assert(unread_of(r.push(ns.last())).drop_last() =~= unread_of(r)) by {
                assert(r.push(ns.last()).drop_last() =~= r);
            }
        }
    }
}

} // verus!
