use pmux::agent_status::{AgentStatus, StatusCounts};

#[test]
fn agent_status_test_status_variants() {
    let statuses = vec![
        AgentStatus::Running,
        AgentStatus::Waiting,
        AgentStatus::WaitingConfirm,
        AgentStatus::Idle,
        AgentStatus::Error,
        AgentStatus::Exited,
        AgentStatus::Unknown,
    ];
    assert_eq!(statuses.len(), 7);
}

#[test]
fn agent_status_test_status_colors() {
    assert_eq!(AgentStatus::Running.color(), "green");
    assert_eq!(AgentStatus::Waiting.color(), "yellow");
    assert_eq!(AgentStatus::WaitingConfirm.color(), "orange");
    assert_eq!(AgentStatus::Idle.color(), "gray");
    assert_eq!(AgentStatus::Error.color(), "red");
    assert_eq!(AgentStatus::Exited.color(), "blue");
    assert_eq!(AgentStatus::Unknown.color(), "purple");
}

#[test]
fn test_rgb_colors() {
    assert_eq!(AgentStatus::Running.rgb_color(), (76, 175, 80));
    assert_eq!(AgentStatus::Error.rgb_color(), (244, 67, 54));
}

#[test]
fn agent_status_test_status_icons() {
    assert_eq!(AgentStatus::Running.icon(), "●");
    assert_eq!(AgentStatus::Waiting.icon(), "◐");
    assert_eq!(AgentStatus::WaitingConfirm.icon(), "▲");
    assert_eq!(AgentStatus::Idle.icon(), "○");
    assert_eq!(AgentStatus::Error.icon(), "✕");
    assert_eq!(AgentStatus::Exited.icon(), "✓");
    assert_eq!(AgentStatus::Unknown.icon(), "?");
}

#[test]
fn agent_status_test_status_display_text() {
    assert_eq!(AgentStatus::Running.display_text(), "Running");
    assert_eq!(AgentStatus::Waiting.display_text(), "Waiting for input");
    assert_eq!(AgentStatus::Idle.display_text(), "Idle");
    assert_eq!(AgentStatus::Error.display_text(), "Error detected");
    assert_eq!(AgentStatus::Exited.display_text(), "Process exited");
    assert_eq!(AgentStatus::Unknown.display_text(), "Unknown");
}

#[test]
fn test_short_text() {
    assert_eq!(AgentStatus::Waiting.short_text(), "Waiting");
    assert_eq!(AgentStatus::Unknown.short_text(), "Unknown");
}

#[test]
fn agent_status_test_status_priority() {
    assert_eq!(AgentStatus::Error.priority(), 6);
    assert_eq!(AgentStatus::Exited.priority(), 5);
    assert_eq!(AgentStatus::Waiting.priority(), 4);
    assert_eq!(AgentStatus::Running.priority(), 3);
    assert_eq!(AgentStatus::Idle.priority(), 2);
    assert_eq!(AgentStatus::Unknown.priority(), 1);
}

#[test]
fn test_priority_comparison() {
    assert!(AgentStatus::Error.higher_priority_than(&AgentStatus::Exited));
    assert!(AgentStatus::Exited.higher_priority_than(&AgentStatus::Waiting));
    assert!(AgentStatus::Waiting.higher_priority_than(&AgentStatus::Running));
    assert!(AgentStatus::Running.higher_priority_than(&AgentStatus::Idle));
    assert!(AgentStatus::Idle.higher_priority_than(&AgentStatus::Unknown));
    assert!(!AgentStatus::Unknown.higher_priority_than(&AgentStatus::Error));
}

#[test]
fn test_is_urgent() {
    assert!(AgentStatus::Error.is_urgent());
    assert!(AgentStatus::Waiting.is_urgent());
    assert!(AgentStatus::WaitingConfirm.is_urgent());
    assert!(!AgentStatus::Running.is_urgent());
    assert!(!AgentStatus::Idle.is_urgent());
    assert!(!AgentStatus::Exited.is_urgent());
    assert!(!AgentStatus::Unknown.is_urgent());
}

#[test]
fn test_is_active() {
    assert!(AgentStatus::Running.is_active());
    assert!(AgentStatus::Waiting.is_active());
    assert!(AgentStatus::WaitingConfirm.is_active());
    assert!(!AgentStatus::Idle.is_active());
    assert!(!AgentStatus::Error.is_active());
    assert!(!AgentStatus::Exited.is_active());
    assert!(!AgentStatus::Unknown.is_active());
}

#[test]
fn test_default_status() {
    let status: AgentStatus = Default::default();
    assert_eq!(status, AgentStatus::Unknown);
}

#[test]
fn test_status_counts_new() {
    let counts = StatusCounts::new();
    assert_eq!(counts.total(), 0);
    assert!(!counts.has_errors());
    assert!(!counts.has_waiting());
}

#[test]
fn test_status_counts_increment_decrement() {
    let mut counts = StatusCounts::new();
    counts.increment(&AgentStatus::Running);
    counts.increment(&AgentStatus::Running);
    counts.increment(&AgentStatus::Error);
    assert_eq!(counts.running, 2);
    assert_eq!(counts.error, 1);
    assert_eq!(counts.total(), 3);
    assert!(counts.has_errors());
    counts.decrement(&AgentStatus::Running);
    assert_eq!(counts.running, 1);
    counts.decrement(&AgentStatus::Waiting);
    assert_eq!(counts.waiting, 0);
}

#[test]
fn test_urgent_count() {
    let mut counts = StatusCounts::new();
    counts.increment(&AgentStatus::Error);
    counts.increment(&AgentStatus::Error);
    counts.increment(&AgentStatus::Waiting);
    counts.increment(&AgentStatus::Running);
    assert_eq!(counts.urgent_count(), 3);
}

#[test]
fn test_most_prevalent() {
    let mut counts = StatusCounts::new();
    assert_eq!(counts.most_prevalent(), None);
    counts.increment(&AgentStatus::Running);
    counts.increment(&AgentStatus::Running);
    counts.increment(&AgentStatus::Idle);
    assert_eq!(counts.most_prevalent(), Some(AgentStatus::Running));
    counts.increment(&AgentStatus::Error);
    assert_eq!(counts.most_prevalent(), Some(AgentStatus::Error));
}

#[test]
fn test_status_counts_per_worktree_not_per_pane() {
    let statuses: Vec<(String, AgentStatus)> = vec![
        ("local:/path/feat".to_string(), AgentStatus::Idle),
        ("local:/path/feat:split-0".to_string(), AgentStatus::Error),
        ("local:/path/main".to_string(), AgentStatus::Running),
    ];
    let counts = StatusCounts::from_pane_statuses_per_worktree(&statuses);
    assert_eq!(counts.error, 1);
    assert_eq!(counts.running, 1);
    assert_eq!(counts.idle, 0);
    assert_eq!(counts.total(), 2);
}

#[test]
fn test_highest_priority_for_worktree_prefix() {
    let statuses: Vec<(String, AgentStatus)> = vec![
        ("local:/path/feat".to_string(), AgentStatus::Idle),
        ("local:/path/feat:split-0".to_string(), AgentStatus::Error),
        ("local:/path/feat:split-1".to_string(), AgentStatus::Running),
        ("local:/path/other".to_string(), AgentStatus::Waiting),
    ];
    let result = AgentStatus::highest_priority_for_prefix(&statuses, "local:/path/feat");
    assert_eq!(result, AgentStatus::Error);
}

#[test]
fn test_highest_priority_falls_back_to_unknown() {
    let statuses: Vec<(String, AgentStatus)> = Vec::new();
    let result = AgentStatus::highest_priority_for_prefix(&statuses, "local:/path/feat");
    assert_eq!(result, AgentStatus::Unknown);
}

#[test]
fn test_highest_priority_prefix_does_not_cross_worktrees() {
    let statuses: Vec<(String, AgentStatus)> = vec![
        ("local:/path/feature-long".to_string(), AgentStatus::Error),
        ("local:/path/feat".to_string(), AgentStatus::Idle),
    ];
    let result = AgentStatus::highest_priority_for_prefix(&statuses, "local:/path/feat");
    assert_eq!(result, AgentStatus::Idle);
}

#[test]
fn agent_status_test_test_status_variants() {
    let _running = AgentStatus::Running;
    let _waiting = AgentStatus::Waiting;
    let _idle = AgentStatus::Idle;
    let _error = AgentStatus::Error;
    let _unknown = AgentStatus::Unknown;
}

#[test]
fn agent_status_test_test_status_colors() {
    assert_eq!(AgentStatus::Running.color(), "green");
    assert_eq!(AgentStatus::Waiting.color(), "yellow");
    assert_eq!(AgentStatus::Idle.color(), "gray");
    assert_eq!(AgentStatus::Error.color(), "red");
    assert_eq!(AgentStatus::Unknown.color(), "purple");
}

#[test]
fn agent_status_test_test_status_icons() {
    assert_eq!(AgentStatus::Running.icon(), "●");
    assert_eq!(AgentStatus::Waiting.icon(), "◐");
    assert_eq!(AgentStatus::Idle.icon(), "○");
    assert_eq!(AgentStatus::Error.icon(), "✕");
    assert_eq!(AgentStatus::Unknown.icon(), "?");
}

#[test]
fn agent_status_test_test_status_display_text() {
    assert_eq!(AgentStatus::Running.display_text(), "Running");
    assert_eq!(AgentStatus::Waiting.display_text(), "Waiting for input");
    assert_eq!(AgentStatus::Idle.display_text(), "Idle");
    assert_eq!(AgentStatus::Error.display_text(), "Error detected");
    assert_eq!(AgentStatus::Unknown.display_text(), "Unknown");
}

#[test]
fn agent_status_test_test_status_priority() {
    assert!(AgentStatus::Error.priority() > AgentStatus::Waiting.priority());
    assert!(AgentStatus::Error.priority() > AgentStatus::Running.priority());
    assert!(AgentStatus::Waiting.priority() > AgentStatus::Running.priority());
    assert!(AgentStatus::Running.priority() > AgentStatus::Idle.priority());
    assert!(AgentStatus::Idle.priority() > AgentStatus::Unknown.priority());
}

#[test]
fn counts_from_all_panes_count_each_pane() {
    let statuses: Vec<(String, AgentStatus)> = vec![
        ("a".to_string(), AgentStatus::Idle),
        ("a:split-0".to_string(), AgentStatus::Error),
        ("b".to_string(), AgentStatus::Waiting),
    ];
    let counts = StatusCounts::from_pane_statuses(&statuses);
    assert_eq!(counts.total(), 3);
    assert_eq!(counts.urgent_count(), 2);
    assert!(counts.has_waiting());
}
