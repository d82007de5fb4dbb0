use pmux::agent_status::AgentStatus;
use pmux::pane_status_tracker::PaneStatusTracker;
use pmux::shell_integration::{ShellPhase, ShellPhaseInfo};
use pmux::status_detector::{DebouncedStatusTracker, ProcessStatus, StatusDetector};
use pmux::status_poller::PollerConfig;

fn phase(phase: ShellPhase, code: Option<u8>) -> ShellPhaseInfo {
    ShellPhaseInfo { phase, last_post_exec_exit_code: code }
}

#[test]
fn test_process_exited_overrides_osc133() {
    let detector = StatusDetector::new();
    let status = detector.detect(ProcessStatus::Exited, Some(phase(ShellPhase::Running, None)), "any content");
    assert_eq!(status, AgentStatus::Exited);
}

#[test]
fn test_process_error_overrides_osc133() {
    let detector = StatusDetector::new();
    let status = detector.detect(ProcessStatus::Error, Some(phase(ShellPhase::Running, None)), "any content");
    assert_eq!(status, AgentStatus::Error);
}

#[test]
fn test_process_running_with_osc133() {
    let detector = StatusDetector::new();
    let status = detector.detect(ProcessStatus::Running, Some(phase(ShellPhase::Running, None)), "any content");
    assert_eq!(status, AgentStatus::Running);
}

#[test]
fn test_process_running_with_osc133_waiting() {
    let detector = StatusDetector::new();
    let status = detector.detect(ProcessStatus::Running, Some(phase(ShellPhase::Input, None)), "any content");
    assert_eq!(status, AgentStatus::Waiting);
}

#[test]
fn test_osc133_running() {
    let detector = StatusDetector::new();
    let status = detector.detect(ProcessStatus::Running, Some(phase(ShellPhase::Running, None)), "any content");
    assert_eq!(status, AgentStatus::Running);
}

#[test]
fn test_osc133_input_waiting() {
    let detector = StatusDetector::new();
    let status = detector.detect(ProcessStatus::Running, Some(phase(ShellPhase::Input, None)), "any content");
    assert_eq!(status, AgentStatus::Waiting);
}

#[test]
fn test_osc133_prompt_waiting() {
    let detector = StatusDetector::new();
    let status = detector.detect(ProcessStatus::Running, Some(phase(ShellPhase::Prompt, None)), "any content");
    assert_eq!(status, AgentStatus::Waiting);
}

#[test]
fn test_osc133_output_error() {
    let detector = StatusDetector::new();
    let status = detector.detect(ProcessStatus::Running, Some(phase(ShellPhase::Output, Some(1))), "any content");
    assert_eq!(status, AgentStatus::Error);
}

#[test]
fn test_osc133_output_success_fallback() {
    let detector = StatusDetector::new();
    let status = detector.detect(ProcessStatus::Running, Some(phase(ShellPhase::Output, Some(0))), "$ echo done");
    assert_eq!(status, AgentStatus::Idle);
}

#[test]
fn test_text_fallback_running() {
    let detector = StatusDetector::new();
    let status = detector.detect(ProcessStatus::Unknown, None, "AI is thinking");
    assert_eq!(status, AgentStatus::Running);
}

#[test]
fn test_text_fallback_waiting() {
    let detector = StatusDetector::new();
    let status = detector.detect(ProcessStatus::Unknown, None, "? What next?");
    assert_eq!(status, AgentStatus::Waiting);
}

#[test]
fn test_text_fallback_error() {
    let detector = StatusDetector::new();
    let status = detector.detect(ProcessStatus::Unknown, None, "Error: file not found");
    assert_eq!(status, AgentStatus::Error);
}

#[test]
fn test_text_fallback_idle() {
    let detector = StatusDetector::new();
    let status = detector.detect(ProcessStatus::Unknown, None, "Just some regular text");
    assert_eq!(status, AgentStatus::Idle);
}

#[test]
fn test_text_fallback_unknown() {
    let detector = StatusDetector::new();
    let status = detector.detect(ProcessStatus::Unknown, None, "");
    assert_eq!(status, AgentStatus::Unknown);
}

#[test]
fn test_osc133_overrides_text() {
    let detector = StatusDetector::new();
    let status = detector.detect(ProcessStatus::Running, Some(phase(ShellPhase::Running, None)), "error in log");
    assert_eq!(status, AgentStatus::Running);
}

#[test]
fn test_integration_with_shell_phase_info() {
    let detector = StatusDetector::new();
    assert_eq!(
        detector.detect(ProcessStatus::Running, Some(phase(ShellPhase::Unknown, None)), "hello"),
        AgentStatus::Idle
    );
    assert_eq!(
        detector.detect(ProcessStatus::Running, Some(phase(ShellPhase::Running, None)), "any content"),
        AgentStatus::Running
    );
    assert_eq!(
        detector.detect(ProcessStatus::Running, Some(phase(ShellPhase::Output, Some(1))), "output"),
        AgentStatus::Error
    );
}

#[test]
fn test_detector_creation() {
    let detector = StatusDetector::new();
    let _ = detector.detect(ProcessStatus::Unknown, None, "test content");
}

#[test]
fn test_detect_from_text_running() {
    let detector = StatusDetector::new();
    assert_eq!(detector.detect_from_text("AI is thinking about your request"), AgentStatus::Running);
    assert_eq!(detector.detect_from_text("Writing code..."), AgentStatus::Running);
    assert_eq!(detector.detect_from_text("Running tool: grep"), AgentStatus::Running);
    assert_eq!(detector.detect_from_text("Loading data from API"), AgentStatus::Running);
}

#[test]
fn test_detect_from_text_confirm() {
    let detector = StatusDetector::new();
    assert_eq!(detector.detect_from_text("This command requires approval"), AgentStatus::WaitingConfirm);
    assert_eq!(detector.detect_from_text("Allow this command to run?"), AgentStatus::WaitingConfirm);
    assert_eq!(detector.detect_from_text("Always allow  Always deny"), AgentStatus::WaitingConfirm);
    assert_eq!(detector.detect_from_text("Permission to run bash command"), AgentStatus::WaitingConfirm);
}

#[test]
fn test_detect_from_text_waiting() {
    let detector = StatusDetector::new();
    assert_eq!(detector.detect_from_text("? What would you like to do?"), AgentStatus::Waiting);
    assert_eq!(detector.detect_from_text("> Enter your choice:"), AgentStatus::Waiting);
    assert_eq!(detector.detect_from_text("Human: please review"), AgentStatus::Waiting);
    assert_eq!(detector.detect_from_text("Press enter to continue"), AgentStatus::Waiting);
}

#[test]
fn test_detect_from_text_error() {
    let detector = StatusDetector::new();
    assert_eq!(detector.detect_from_text("Error: file not found"), AgentStatus::Error);
    assert_eq!(detector.detect_from_text("Traceback (most recent call):"), AgentStatus::Error);
    assert_eq!(detector.detect_from_text("Command failed with exit code 1"), AgentStatus::Error);
    assert_eq!(detector.detect_from_text("Panic: runtime error"), AgentStatus::Error);
}

#[test]
fn test_detect_from_text_idle() {
    let detector = StatusDetector::new();
    assert_eq!(detector.detect_from_text("Just some regular text"), AgentStatus::Idle);
    assert_eq!(detector.detect_from_text("Hello world"), AgentStatus::Idle);
    assert_eq!(detector.detect_from_text("$ ls -la"), AgentStatus::Idle);
}

#[test]
fn test_detect_from_text_unknown() {
    let detector = StatusDetector::new();
    assert_eq!(detector.detect_from_text(""), AgentStatus::Unknown);
    assert_eq!(detector.detect_from_text("   "), AgentStatus::Unknown);
    assert_eq!(detector.detect_from_text("\n\n\n"), AgentStatus::Unknown);
}

#[test]
fn test_priority_ordering_text() {
    let detector = StatusDetector::new();
    let content = "This command requires approval. Allow / Deny";
    assert_eq!(detector.detect_from_text(content), AgentStatus::WaitingConfirm);
    let content = "An error occurred while processing";
    assert_eq!(detector.detect_from_text(content), AgentStatus::Error);
    let content = "awaiting input from user";
    assert_eq!(detector.detect_from_text(content), AgentStatus::Waiting);
}

#[test]
fn test_ansi_removal() {
    let detector = StatusDetector::new();
    let with_ansi = "\x1b[32mAI is\x1b[0m \x1b[1mthinking\x1b[0m";
    assert_eq!(detector.detect_from_text(with_ansi), AgentStatus::Running);
}

#[test]
fn preprocess_strips_colours_and_keeps_last_lines() {
    let detector = StatusDetector::with_line_count(StatusDetector::new(), 2);
    assert_eq!(detector.preprocess("a\nb\n\x1b[1mc\x1b[0m"), "b\nc");
}

#[test]
fn test_line_limit() {
    let detector = StatusDetector::with_line_count(StatusDetector::new(), 2);
    let content = "Old content without keywords\nNew content\nAI is thinking";
    assert_eq!(detector.detect_from_text(content), AgentStatus::Running);
}

#[test]
fn test_custom_patterns() {
    let detector = StatusDetector::new().add_running_pattern(r"custom_running").unwrap();
    assert_eq!(detector.detect_from_text("custom_running now"), AgentStatus::Running);
}

#[test]
fn invalid_custom_pattern_is_reported() {
    let result = StatusDetector::new().add_error_pattern("(unclosed");
    match result {
        Err(e) => {
            assert_eq!(e.pattern, "(unclosed");
            assert!(!e.message.is_empty());
        }
        Ok(_) => panic!("an unbalanced pattern must be refused"),
    }
}

#[test]
fn confidence_parts() {
    let detector = StatusDetector::new();
    let (best, total) = detector.confidence_counts("AI is thinking and writing code");
    assert!(best > 0);
    assert!(best <= total);
    let (best, _) = detector.confidence_counts("random text without keywords");
    assert_eq!(best, 0);
}

#[test]
fn test_debounced_tracker_creation() {
    let tracker = DebouncedStatusTracker::new();
    assert_eq!(tracker.current_status(), AgentStatus::Unknown);
    assert_eq!(tracker.pending_status(), None);
}

#[test]
fn test_debounce_requires_multiple_calls() {
    let mut tracker = DebouncedStatusTracker::with_debounce(2);
    let changed = tracker.update(ProcessStatus::Unknown, None, "AI is thinking");
    assert!(!changed);
    assert_eq!(tracker.current_status(), AgentStatus::Unknown);
    assert_eq!(tracker.pending_status(), Some(AgentStatus::Running));
    let changed = tracker.update(ProcessStatus::Unknown, None, "AI is still thinking");
    assert!(changed);
    assert_eq!(tracker.current_status(), AgentStatus::Running);
    assert_eq!(tracker.pending_status(), None);
}

#[test]
fn test_error_bypasses_debounce() {
    let mut tracker = DebouncedStatusTracker::with_debounce(2);
    tracker.update(ProcessStatus::Unknown, None, "AI is thinking");
    let changed = tracker.update(ProcessStatus::Unknown, None, "AI is thinking");
    assert!(changed);
    assert_eq!(tracker.current_status(), AgentStatus::Running);
    let changed = tracker.update(ProcessStatus::Unknown, None, "Error occurred!");
    assert!(changed);
    assert_eq!(tracker.current_status(), AgentStatus::Error);
}

#[test]
fn test_exited_bypasses_debounce() {
    let mut tracker = DebouncedStatusTracker::with_debounce(2);
    tracker.update(ProcessStatus::Running, None, "AI is thinking");
    tracker.update(ProcessStatus::Running, None, "AI is thinking");
    assert_eq!(tracker.current_status(), AgentStatus::Running);
    let changed = tracker.update(ProcessStatus::Exited, None, "any content");
    assert!(changed);
    assert_eq!(tracker.current_status(), AgentStatus::Exited);
}

#[test]
fn test_different_status_resets_debounce() {
    let mut tracker = DebouncedStatusTracker::with_debounce(2);
    tracker.update(ProcessStatus::Unknown, None, "AI is thinking");
    tracker.update(ProcessStatus::Unknown, None, "? What next?");
    assert_eq!(tracker.pending_status(), Some(AgentStatus::Waiting));
    assert_eq!(tracker.pending_count(), 1);
    tracker.update(ProcessStatus::Unknown, None, "? Still waiting");
    assert_eq!(tracker.current_status(), AgentStatus::Waiting);
}

#[test]
fn status_detector_test_force_status() {
    let mut tracker = DebouncedStatusTracker::new();
    tracker.force_status(AgentStatus::Running);
    assert_eq!(tracker.current_status(), AgentStatus::Running);
    assert_eq!(tracker.pending_status(), None);
}

#[test]
fn test_tracker_reset() {
    let mut tracker = DebouncedStatusTracker::new();
    tracker.update(ProcessStatus::Unknown, None, "AI is thinking");
    tracker.update(ProcessStatus::Unknown, None, "AI is thinking");
    assert_eq!(tracker.current_status(), AgentStatus::Running);
    tracker.reset();
    assert_eq!(tracker.current_status(), AgentStatus::Unknown);
    assert_eq!(tracker.pending_status(), None);
}

#[test]
fn higher_threshold_needs_more_observations() {
    let mut tracker = DebouncedStatusTracker::with_debounce(3);
    assert!(!tracker.update_with_status(AgentStatus::Running));
    assert!(!tracker.update_with_status(AgentStatus::Running));
    assert!(tracker.update_with_status(AgentStatus::Running));
    assert!(!tracker.update_with_status(AgentStatus::Running));
}

#[test]
fn test_tracker_creation() {
    let tracker = PaneStatusTracker::new();
    assert_eq!(tracker.pane_count(), 0);
}

#[test]
fn test_register_pane() {
    let mut tracker = PaneStatusTracker::new();
    tracker.register_pane("pane-1");
    assert_eq!(tracker.pane_count(), 1);
    assert!(tracker.is_tracking("pane-1"));
    assert!(!tracker.is_tracking("pane-2"));
}

#[test]
fn test_unregister_pane() {
    let mut tracker = PaneStatusTracker::new();
    tracker.register_pane("pane-1");
    tracker.register_pane("pane-2");
    tracker.unregister_pane("pane-1");
    assert_eq!(tracker.pane_count(), 1);
    assert!(!tracker.is_tracking("pane-1"));
    assert!(tracker.is_tracking("pane-2"));
}

#[test]
fn test_get_status_unknown_for_unregistered() {
    let tracker = PaneStatusTracker::new();
    assert_eq!(tracker.get_status("unknown-pane"), AgentStatus::Unknown);
}

#[test]
fn pane_status_tracker_test_force_status() {
    let mut tracker = PaneStatusTracker::new();
    tracker.register_pane("pane-1");
    tracker.force_status("pane-1", AgentStatus::Running);
    assert_eq!(tracker.get_status("pane-1"), AgentStatus::Running);
}

#[test]
fn test_force_status_creates_tracker() {
    let mut tracker = PaneStatusTracker::new();
    tracker.force_status("new-pane", AgentStatus::Error);
    assert!(tracker.is_tracking("new-pane"));
    assert_eq!(tracker.get_status("new-pane"), AgentStatus::Error);
}

#[test]
fn test_get_all_statuses() {
    let mut tracker = PaneStatusTracker::new();
    tracker.register_pane("pane-1");
    tracker.register_pane("pane-2");
    tracker.force_status("pane-1", AgentStatus::Running);
    tracker.force_status("pane-2", AgentStatus::Idle);
    let statuses = tracker.get_all_statuses();
    assert_eq!(statuses.len(), 2);
    let get = |id: &str| statuses.iter().find(|(p, _)| p == id).map(|(_, s)| *s);
    assert_eq!(get("pane-1"), Some(AgentStatus::Running));
    assert_eq!(get("pane-2"), Some(AgentStatus::Idle));
}

#[test]
fn test_pane_ids() {
    let mut tracker = PaneStatusTracker::new();
    tracker.register_pane("pane-a");
    tracker.register_pane("pane-b");
    let ids = tracker.pane_ids();
    assert_eq!(ids.len(), 2);
    assert!(ids.contains(&"pane-a".to_string()));
    assert!(ids.contains(&"pane-b".to_string()));
}

#[test]
fn test_reset_all() {
    let mut tracker = PaneStatusTracker::new();
    tracker.register_pane("pane-1");
    tracker.force_status("pane-1", AgentStatus::Running);
    tracker.reset_all();
    assert_eq!(tracker.get_status("pane-1"), AgentStatus::Unknown);
}

#[test]
fn test_get_urgent_panes() {
    let mut tracker = PaneStatusTracker::new();
    tracker.register_pane("pane-1");
    tracker.register_pane("pane-2");
    tracker.register_pane("pane-3");
    tracker.force_status("pane-1", AgentStatus::Error);
    tracker.force_status("pane-2", AgentStatus::Waiting);
    tracker.force_status("pane-3", AgentStatus::Running);
    let urgent = tracker.get_urgent_panes();
    assert_eq!(urgent.len(), 2);
    let ids: Vec<_> = urgent.iter().map(|(id, _)| id.clone()).collect();
    assert!(ids.contains(&"pane-1".to_string()));
    assert!(ids.contains(&"pane-2".to_string()));
}

#[test]
fn test_cleanup_stale() {
    let mut tracker = PaneStatusTracker::new();
    tracker.register_pane("fresh");
    tracker.register_pane("stale");
    tracker.cleanup_stale(3_600_000);
    assert_eq!(tracker.pane_count(), 2);
}

#[test]
fn cleanup_stale_at_fixed_times() {
    let mut tracker = PaneStatusTracker::new();
    tracker.register_pane_at("old", 1_000);
    tracker.register_pane_at("new", 5_000);
    tracker.cleanup_stale_at(3_000, 6_000);
    assert!(!tracker.is_tracking("old"));
    assert!(tracker.is_tracking("new"));
}

#[test]
fn update_pane_reports_changes() {
    let mut tracker = PaneStatusTracker::new();
    tracker.register_pane_at("p", 0);
    assert!(tracker.update_pane_at("p", "Error: boom", 100));
    assert_eq!(tracker.get_status("p"), AgentStatus::Error);
    assert!(!tracker.update_pane_at("p", "AI is thinking", 200));
    assert!(tracker.update_pane_at("p", "AI is thinking", 300));
    assert_eq!(tracker.get_status("p"), AgentStatus::Running);
}

#[test]
fn test_default_config() {
    let config = PollerConfig::default();
    assert_eq!(config.interval_ms, 500);
    assert_eq!(config.debounce_threshold, 2);
}

#[test]
fn test_config_builder() {
    let config = PollerConfig::new().with_interval(1000).with_debounce(3);
    assert_eq!(config.interval_ms, 1000);
    assert_eq!(config.debounce_threshold, 3);
}
