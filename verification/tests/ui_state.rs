use pmux::layout::{grid_pane_count, grid_pane_sizes, LayoutConfig};
use pmux::loading_state::RetryCounter;
use pmux::loading_state::{
    ConnectionState, NetworkStatus, Spinner, Toast, ToastManager, ToastType,
};
use pmux::mute_settings::MuteSettings;
use pmux::notification::NotificationType;

#[test]
fn test_layout_config_default() {
    let config = LayoutConfig::default();
    assert_eq!(config.sidebar_width, 250);
    assert_eq!(config.window_size, (1200, 800));
    assert_eq!(config.window_position, (100, 100));
}

#[test]
fn test_layout_config_new() {
    let config = LayoutConfig::new();
    assert_eq!(config.sidebar_width, 250);
}

#[test]
fn test_sidebar_width_constraints() {
    let mut config = LayoutConfig::default();
    config.set_sidebar_width(100);
    assert_eq!(config.sidebar_width, LayoutConfig::MIN_SIDEBAR_WIDTH);
    config.set_sidebar_width(500);
    assert_eq!(config.sidebar_width, LayoutConfig::MAX_SIDEBAR_WIDTH);
    config.set_sidebar_width(300);
    assert_eq!(config.sidebar_width, 300);
}

#[test]
fn test_normalize_enforces_bounds() {
    let config = LayoutConfig::with_values(150, 1200, 800, 100, 100);
    assert_eq!(config.sidebar_width, LayoutConfig::MIN_SIDEBAR_WIDTH);
    let config = LayoutConfig::with_values(500, 1200, 800, 100, 100);
    assert_eq!(config.sidebar_width, LayoutConfig::MAX_SIDEBAR_WIDTH);
}

#[test]
fn layout_test_terminal_view_width() {
    let config = LayoutConfig::with_values(250, 1200, 800, 100, 100);
    assert_eq!(config.terminal_view_width(), 950);
}

#[test]
fn test_terminal_view_width_with_small_window() {
    let config = LayoutConfig::with_values(300, 200, 800, 100, 100);
    assert_eq!(config.terminal_view_width(), 0);
}

#[test]
fn test_update_window_size_adjusts_sidebar() {
    let mut config = LayoutConfig::with_values(300, 1200, 800, 100, 100);
    config.update_window_size(250, 600);
    assert!(config.sidebar_width <= config.window_size.0);
}

#[test]
fn layout_test_toggle_sidebar() {
    let mut config = LayoutConfig::default();
    assert!(config.is_sidebar_visible());
    config.toggle_sidebar();
    assert!(!config.is_sidebar_visible());
    assert_eq!(config.sidebar_width, 0);
    config.toggle_sidebar();
    assert!(config.is_sidebar_visible());
    assert_eq!(config.sidebar_width, 250);
}

#[test]
fn layout_height_and_position() {
    let mut config = LayoutConfig::default();
    assert_eq!(config.terminal_view_height(), 800);
    config.update_window_position(-5, 7);
    assert_eq!(config.window_position, (-5, 7));
}

#[test]
fn test_spinner_lifecycle() {
    let mut spinner = Spinner::new();
    assert!(!spinner.is_spinning());
    spinner.start();
    assert!(spinner.is_spinning());
    assert!(spinner.elapsed().is_some());
    spinner.pause();
    assert!(!spinner.is_spinning());
    spinner.resume();
    assert!(spinner.is_spinning());
    spinner.stop();
    assert!(!spinner.is_spinning());
}

#[test]
fn test_spinner_frames() {
    let spinner = Spinner::new();
    assert_eq!(spinner.current_frame(), " ");
}

#[test]
fn spinner_elapsed_at_fixed_times() {
    let mut spinner = Spinner::new();
    assert_eq!(spinner.elapsed_at(10), None);
    spinner.start_at(1_000);
    assert_eq!(spinner.elapsed_at(1_250), Some(250));
}

#[test]
fn test_toast_creation() {
    let toast = Toast::info("test-1", "Test message");
    assert_eq!(toast.toast_type, ToastType::Info);
    assert_eq!(toast.message, "Test message");
    assert_eq!(toast.icon(), "ℹ️");
    assert!(!toast.is_expired());
}

#[test]
fn test_toast_types() {
    let info = Toast::info("i", "info");
    let success = Toast::success("s", "success");
    let warning = Toast::warning("w", "warning");
    let error = Toast::error("e", "error");
    assert_eq!(info.icon(), "ℹ️");
    assert_eq!(success.icon(), "✅");
    assert_eq!(warning.icon(), "⚠️");
    assert_eq!(error.icon(), "❌");
}

#[test]
fn test_toast_manager() {
    let mut manager = ToastManager::new();
    assert!(!manager.has_toasts());
    manager.add(Toast::info("1", "First"));
    assert!(manager.has_toasts());
    assert_eq!(manager.active_count(), 1);
    manager.add(Toast::info("2", "Second"));
    assert_eq!(manager.active_count(), 2);
    manager.add(Toast::info("1", "Updated"));
    assert_eq!(manager.active_count(), 2);
    manager.remove("1");
    assert_eq!(manager.active_count(), 1);
    manager.clear();
    assert!(!manager.has_toasts());
}

#[test]
fn toast_expiry_at_fixed_times() {
    let toast = Toast::new_at("t", "m", ToastType::Info, 1_000).with_duration(500);
    assert!(!toast.is_expired_at(1_500));
    assert!(toast.is_expired_at(1_501));
    assert_eq!(toast.remaining_at(1_200), Some(300));
    assert_eq!(toast.remaining_at(9_000), Some(0));
}

#[test]
fn toast_manager_keeps_at_most_five() {
    let mut manager = ToastManager::new();
    for i in 0..7 {
        manager.add(Toast::info(&format!("{}", i), "m"));
    }
    assert_eq!(manager.toasts.len(), 5);
    assert_eq!(manager.toasts[0].id, "6");
}

#[test]
fn test_network_status() {
    let mut status = NetworkStatus::new();
    assert_eq!(status.state, ConnectionState::Unknown);
    status.mark_connected();
    assert!(status.is_connected());
    assert_eq!(status.status_message(), "Connected");
    status.mark_disconnected();
    assert!(!status.is_connected());
    assert_eq!(status.status_message(), "Disconnected");
    status.mark_reconnecting(1);
    assert_eq!(status.status_message(), "Reconnecting...");
}

#[test]
fn test_persistent_toast() {
    let toast = Toast::error("e", "Error").persistent();
    assert!(toast.duration.is_none());
    assert!(!toast.is_expired());
}

#[test]
fn test_toast_with_action() {
    let toast = Toast::error("e", "Error").with_action("Retry");
    assert_eq!(toast.action, Some("Retry".to_string()));
}

#[test]
fn test_default_settings() {
    let settings = MuteSettings::new();
    assert!(!settings.global_mute);
    assert!(settings.muted_panes.is_empty());
    assert!(settings.muted_types.is_empty());
}

#[test]
fn test_global_mute() {
    let mut settings = MuteSettings::new();
    assert!(!settings.is_muted("pane-1", NotificationType::Error));
    settings.enable_global_mute();
    assert!(settings.global_mute);
    assert!(settings.is_muted("pane-1", NotificationType::Error));
    settings.disable_global_mute();
    assert!(!settings.is_muted("pane-1", NotificationType::Error));
}

#[test]
fn test_pane_mute() {
    let mut settings = MuteSettings::new();
    settings.mute_pane("pane-1");
    assert!(settings.is_pane_muted("pane-1"));
    assert!(settings.is_muted("pane-1", NotificationType::Error));
    assert!(!settings.is_muted("pane-2", NotificationType::Error));
    settings.unmute_pane("pane-1");
    assert!(!settings.is_pane_muted("pane-1"));
}

#[test]
fn test_type_mute() {
    let mut settings = MuteSettings::new();
    settings.mute_type(NotificationType::Info);
    assert!(settings.is_type_muted(NotificationType::Info));
    assert!(settings.is_muted("pane-1", NotificationType::Info));
    assert!(!settings.is_muted("pane-1", NotificationType::Error));
}

#[test]
fn test_temporary_mute() {
    let mut settings = MuteSettings::new();
    settings.enable_temporary_mute(3_600_000);
    assert!(settings.is_temporarily_muted());
    assert!(settings.is_muted("pane-1", NotificationType::Error));
    assert!(settings.temporary_mute_remaining().is_some());
    settings.disable_temporary_mute();
    assert!(!settings.is_temporarily_muted());
}

#[test]
fn test_temporary_mute_expired() {
    let mut settings = MuteSettings::new();
    settings.enable_temporary_mute_at(1, 1_000);
    assert!(!settings.is_temporarily_muted_at(1_010));
    assert!(!settings.is_muted_at("pane-1", NotificationType::Error, 1_010));
    assert!(settings.is_temporarily_muted_at(1_000));
    assert_eq!(settings.temporary_mute_remaining_at(1_010), Some(0));
}

#[test]
fn test_toggle_global_mute() {
    let mut settings = MuteSettings::new();
    let result = settings.toggle_global_mute();
    assert!(result);
    assert!(settings.global_mute);
    let result = settings.toggle_global_mute();
    assert!(!result);
    assert!(!settings.global_mute);
}

#[test]
fn test_toggle_pane_mute() {
    let mut settings = MuteSettings::new();
    let result = settings.toggle_pane_mute("pane-1");
    assert!(result);
    let result = settings.toggle_pane_mute("pane-1");
    assert!(!result);
}

#[test]
fn mute_settings_test_clear_all() {
    let mut settings = MuteSettings::new();
    settings.enable_global_mute();
    settings.mute_pane("pane-1");
    settings.mute_type(NotificationType::Error);
    settings.enable_temporary_mute(3_600_000);
    settings.clear_all();
    assert!(!settings.global_mute);
    assert!(!settings.is_pane_muted("pane-1"));
    assert!(!settings.is_type_muted(NotificationType::Error));
    assert!(!settings.is_temporarily_muted());
}

#[test]
fn test_muted_counts() {
    let mut settings = MuteSettings::new();
    settings.mute_pane("pane-1");
    settings.mute_pane("pane-2");
    settings.mute_type(NotificationType::Error);
    assert_eq!(settings.muted_pane_count(), 2);
    assert_eq!(settings.muted_panes().len(), 2);
    assert_eq!(settings.muted_types().len(), 1);
}

#[test]
fn test_priority_order() {
    let mut settings = MuteSettings::new();
    settings.mute_pane("pane-1");
    assert!(settings.is_muted("pane-1", NotificationType::Error));
    settings.enable_global_mute();
    assert!(settings.is_muted("pane-2", NotificationType::Error));
    settings.disable_global_mute();
    assert!(!settings.is_muted("pane-2", NotificationType::Error));
}

#[test]
fn muting_a_pane_twice_keeps_one_entry() {
    let mut settings = MuteSettings::new();
    settings.mute_pane("p");
    settings.mute_pane("p");
    assert_eq!(settings.muted_pane_count(), 1);
    assert!(settings.toggle_type_mute(NotificationType::Waiting));
    assert!(!settings.toggle_type_mute(NotificationType::Waiting));
}

#[test]
fn test_grid_pane_count_and_sizes() {
    assert_eq!(grid_pane_count(2, 3), 6);
    let sizes = grid_pane_sizes(1000, 600, 2, 2);
    assert_eq!(sizes, vec![(500, 300); 4]);
    assert_eq!(grid_pane_sizes(7, 5, 1, 3), vec![(2, 5); 3]);
}

#[test]
fn test_retry_counter_messages() {
    let mut c = RetryCounter::new(3);
    assert!(c.can_retry());
    assert!(c.record_attempt("timeout"));
    assert_eq!(c.status_message(), "Attempt 1/3 failed. Retrying...");
    assert!(c.record_attempt("timeout"));
    assert!(!c.record_attempt("refused"));
    assert_eq!(c.status_message(), "Failed after 3 attempts: refused");
    c.reset();
    assert_eq!(c.attempt, 0);
    assert!(c.last_error.is_none());
    let exhausted = RetryCounter { attempt: 1, max_attempts: 1, last_error: None };
    assert_eq!(exhausted.status_message(), "Failed after 1 attempts: Unknown error");
}
