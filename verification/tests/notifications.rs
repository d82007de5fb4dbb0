use pmux::notification::{Notification, NotificationSummary, NotificationType};
use pmux::notification_manager::{NotificationManager, MAX_NOTIFICATIONS};

#[test]
fn notification_test_notification_creation() {
    let notif = Notification::new("pane-1", NotificationType::Error, "Build failed");
    assert_eq!(notif.pane_id(), "pane-1");
    assert_eq!(notif.notif_type(), NotificationType::Error);
    assert_eq!(notif.message(), "Build failed");
    assert!(!notif.is_read());
    assert_eq!(notif.merge_count(), 1);
}

#[test]
fn test_notification_type_variants() {
    assert_eq!(NotificationType::Error.priority(), 3);
    assert_eq!(NotificationType::Waiting.priority(), 2);
    assert_eq!(NotificationType::Info.priority(), 1);
}

#[test]
fn test_notification_type_display() {
    assert_eq!(NotificationType::Error.display_text(), "Error");
    assert_eq!(NotificationType::Waiting.display_text(), "Waiting");
    assert_eq!(NotificationType::Info.display_text(), "Info");
}

#[test]
fn test_notification_type_icons() {
    assert_eq!(NotificationType::Error.icon(), "✕");
    assert_eq!(NotificationType::Waiting.icon(), "◐");
    assert_eq!(NotificationType::Info.icon(), "ℹ");
}

#[test]
fn notification_test_mark_as_read() {
    let mut notif = Notification::new("pane-1", NotificationType::Error, "Test");
    assert!(!notif.is_read());
    notif.mark_as_read();
    assert!(notif.is_read());
    notif.mark_as_unread();
    assert!(!notif.is_read());
}

#[test]
fn test_merge_count() {
    let mut notif = Notification::new("pane-1", NotificationType::Error, "Test");
    assert_eq!(notif.merge_count(), 1);
    notif.increment_merge_count();
    notif.increment_merge_count();
    assert_eq!(notif.merge_count(), 3);
}

#[test]
fn test_display_message_with_merge() {
    let mut notif = Notification::new("pane-1", NotificationType::Error, "Error occurred");
    assert_eq!(notif.display_message(), "Error occurred");
    notif.increment_merge_count();
    notif.increment_merge_count();
    assert_eq!(notif.display_message(), "Error occurred ×3");
}

#[test]
fn test_group_key() {
    let notif1 = Notification::new("pane-1", NotificationType::Error, "Test");
    let notif2 = Notification::new("pane-1", NotificationType::Error, "Another");
    let notif3 = Notification::new("pane-1", NotificationType::Waiting, "Test");
    let notif4 = Notification::new("pane-2", NotificationType::Error, "Test");
    assert_eq!(notif1.group_key(), notif2.group_key());
    assert_ne!(notif1.group_key(), notif3.group_key());
    assert_ne!(notif1.group_key(), notif4.group_key());
}

#[test]
fn test_is_recent() {
    let notif = Notification::new("pane-1", NotificationType::Error, "Test");
    assert!(notif.is_recent(60_000));
    let _ = notif.age();
}

#[test]
fn recency_at_fixed_times() {
    let notif = Notification::with_id_at(7, "p", NotificationType::Info, "m", 1_000);
    assert_eq!(notif.id(), 7);
    assert_eq!(notif.timestamp(), 1_000);
    assert_eq!(notif.age_at(1_500), 500);
    assert!(notif.is_recent_at(600, 1_500));
    assert!(!notif.is_recent_at(400, 1_500));
}

#[test]
fn test_notification_summary() {
    let mut summary = NotificationSummary::new();
    assert!(!summary.has_notifications());
    assert!(!summary.has_unread());
    summary.total = 5;
    summary.unread = 2;
    summary.error_count = 1;
    summary.waiting_count = 1;
    summary.info_count = 3;
    assert!(summary.has_notifications());
    assert!(summary.has_unread());
    assert!(summary.has_errors());
    assert!(summary.has_waiting());
}

#[test]
fn test_unique_ids() {
    let notif1 = Notification::new("pane-1", NotificationType::Error, "Test");
    let notif2 = Notification::new("pane-1", NotificationType::Error, "Test");
    assert_ne!(notif1.id(), notif2.id());
}

#[test]
fn notification_ids_are_version_four() {
    let notif = Notification::new("pane-1", NotificationType::Error, "Test");
    let id = notif.id();
    assert_eq!((id >> 76) & 0xf, 4);
    assert_eq!((id >> 62) & 0x3, 2);
}

#[test]
fn notification_test_test_notification_creation() {
    let notif = Notification::new("pane-1", NotificationType::Error, "Build failed");
    assert_eq!(notif.pane_id(), "pane-1");
    assert_eq!(notif.notif_type(), NotificationType::Error);
    assert_eq!(notif.message(), "Build failed");
    assert!(!notif.is_read());
}

#[test]
fn test_notification_types() {
    let _error = NotificationType::Error;
    let _waiting = NotificationType::Waiting;
    let _info = NotificationType::Info;
}

#[test]
fn notification_test_test_mark_as_read() {
    let mut notif = Notification::new("pane-1", NotificationType::Error, "Test");
    assert!(!notif.is_read());
    notif.mark_as_read();
    assert!(notif.is_read());
}

#[test]
fn test_priority_ordering() {
    assert!(NotificationType::Error.priority() > NotificationType::Waiting.priority());
    assert!(NotificationType::Waiting.priority() > NotificationType::Info.priority());
}

#[test]
fn test_manager_creation() {
    let manager = NotificationManager::new();
    assert!(manager.is_empty());
    assert_eq!(manager.count(), 0);
}

#[test]
fn test_add_notification() {
    let mut manager = NotificationManager::new();
    let added = manager.add("pane-1", NotificationType::Error, "Test error");
    assert!(added);
    assert_eq!(manager.count(), 1);
}

#[test]
fn test_notification_merge() {
    let mut manager = NotificationManager::new();
    let added1 = manager.add("pane-1", NotificationType::Error, "Error occurred");
    assert!(added1);
    let added2 = manager.add("pane-1", NotificationType::Error, "Another error");
    assert!(!added2);
    assert_eq!(manager.count(), 1);
    let notif = manager.latest().unwrap();
    assert_eq!(notif.merge_count(), 2);
}

#[test]
fn merge_only_within_window() {
    let mut manager = NotificationManager::new();
    assert!(manager.add_at("p", NotificationType::Error, "a", 1_000, 1));
    assert!(!manager.add_at("p", NotificationType::Error, "b", 1_000 + 29_999, 2));
    assert_eq!(manager.count(), 1);
    assert!(manager.add_at("p", NotificationType::Error, "c", 1_000 + 30_000, 3));
    assert_eq!(manager.count(), 2);
    assert_eq!(manager.latest().unwrap().id(), 3);
    assert_eq!(manager.oldest().unwrap().id(), 1);
}

#[test]
fn test_no_merge_different_pane() {
    let mut manager = NotificationManager::new();
    manager.add("pane-1", NotificationType::Error, "Error");
    manager.add("pane-2", NotificationType::Error, "Error");
    assert_eq!(manager.count(), 2);
}

#[test]
fn test_no_merge_different_type() {
    let mut manager = NotificationManager::new();
    manager.add("pane-1", NotificationType::Error, "Error");
    manager.add("pane-1", NotificationType::Waiting, "Waiting");
    assert_eq!(manager.count(), 2);
}

#[test]
fn test_unread_notifications() {
    let mut manager = NotificationManager::new();
    manager.add("pane-1", NotificationType::Error, "Error 1");
    manager.add("pane-1", NotificationType::Error, "Error 2");
    let unread = manager.unread();
    assert_eq!(unread.len(), 1);
    assert!(!unread[0].is_read());
}

#[test]
fn test_mark_read() {
    let mut manager = NotificationManager::new();
    manager.add("pane-1", NotificationType::Error, "Error");
    let id = manager.latest().unwrap().id();
    assert_eq!(manager.unread_count(), 1);
    manager.mark_read(id);
    assert_eq!(manager.unread_count(), 0);
}

#[test]
fn test_mark_all_read() {
    let mut manager = NotificationManager::new();
    manager.add("pane-1", NotificationType::Error, "Error 1");
    manager.add("pane-2", NotificationType::Waiting, "Waiting");
    manager.mark_all_read();
    assert_eq!(manager.unread_count(), 0);
    assert!(manager.latest().unwrap().is_read());
}

#[test]
fn test_clear_notification() {
    let mut manager = NotificationManager::new();
    manager.add("pane-1", NotificationType::Error, "Error 1");
    manager.add("pane-2", NotificationType::Error, "Error 2");
    let id = manager.by_pane("pane-1")[0].id();
    assert!(manager.clear(id));
    assert_eq!(manager.count(), 1);
    assert!(!manager.clear(id));
}

#[test]
fn notification_manager_test_clear_all() {
    let mut manager = NotificationManager::new();
    manager.add("pane-1", NotificationType::Error, "Error");
    manager.add("pane-2", NotificationType::Waiting, "Waiting");
    manager.clear_all();
    assert!(manager.is_empty());
}

#[test]
fn clear_read_keeps_unread() {
    let mut manager = NotificationManager::new();
    manager.add_at("a", NotificationType::Error, "x", 0, 1);
    manager.add_at("b", NotificationType::Info, "y", 0, 2);
    manager.mark_read(1);
    manager.clear_read();
    assert_eq!(manager.count(), 1);
    assert_eq!(manager.latest().unwrap().id(), 2);
    assert!(manager.has_unread());
}

#[test]
fn test_by_pane_filter() {
    let mut manager = NotificationManager::new();
    manager.add("pane-1", NotificationType::Error, "Error");
    manager.add("pane-1", NotificationType::Waiting, "Waiting");
    manager.add("pane-2", NotificationType::Error, "Error");
    let pane1_notifs = manager.by_pane("pane-1");
    assert_eq!(pane1_notifs.len(), 2);
}

#[test]
fn test_by_type_filter() {
    let mut manager = NotificationManager::new();
    manager.add("pane-1", NotificationType::Error, "Error 1");
    manager.add("pane-2", NotificationType::Error, "Error 2");
    manager.add("pane-3", NotificationType::Waiting, "Waiting");
    let errors = manager.by_type(NotificationType::Error);
    assert_eq!(errors.len(), 2);
}

#[test]
fn test_summary() {
    let mut manager = NotificationManager::new();
    manager.add("pane-1", NotificationType::Error, "Error");
    manager.add("pane-2", NotificationType::Waiting, "Waiting");
    manager.add("pane-3", NotificationType::Info, "Info");
    let summary = manager.summary();
    assert_eq!(summary.total, 3);
    assert_eq!(summary.error_count, 1);
    assert_eq!(summary.waiting_count, 1);
    assert_eq!(summary.info_count, 1);
}

#[test]
fn test_max_limit() {
    let mut manager = NotificationManager::new();
    for i in 0..MAX_NOTIFICATIONS + 10 {
        manager.add(&format!("pane-{}", i), NotificationType::Info, "Test");
    }
    assert_eq!(manager.count(), MAX_NOTIFICATIONS);
}

#[test]
fn test_recent_notifications() {
    let mut manager = NotificationManager::new();
    for i in 0..5 {
        manager.add(&format!("pane-{}", i), NotificationType::Info, "Test");
    }
    let recent = manager.recent(3);
    assert_eq!(recent.len(), 3);
}
