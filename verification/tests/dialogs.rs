use pmux::layout::LayoutConfig;
use pmux::new_branch_dialog::{
    generate_unique_tmux_session_name, generate_worktree_path, tmux_session_name_at,
    validate_branch_name, NewBranchDialog,
};
use pmux::resizable_sidebar::ResizableSidebar;

#[test]
fn test_validate_branch_name_accepts_valid_names() {
    assert!(validate_branch_name("feature/test").is_ok());
    assert!(validate_branch_name("fix-bug-123").is_ok());
    assert!(validate_branch_name("main").is_ok());
    assert!(validate_branch_name("develop").is_ok());
    assert!(validate_branch_name("user/john/do-something").is_ok());
}

#[test]
fn test_validate_branch_name_rejects_spaces() {
    assert!(validate_branch_name("feature test").is_err());
    assert!(validate_branch_name("my branch").is_err());
    assert!(validate_branch_name(" test").is_err());
    assert!(validate_branch_name("test ").is_err());
}

#[test]
fn test_validate_branch_name_rejects_special_characters() {
    assert!(validate_branch_name("branch~name").is_err());
    assert!(validate_branch_name("branch^name").is_err());
    assert!(validate_branch_name("branch:name").is_err());
    assert!(validate_branch_name("branch?name").is_err());
    assert!(validate_branch_name("branch*name").is_err());
    assert!(validate_branch_name("branch[").is_err());
    assert!(validate_branch_name("branch]").is_err());
    assert!(validate_branch_name("branch..name").is_err());
}

#[test]
fn test_validate_branch_name_rejects_empty() {
    assert!(validate_branch_name("").is_err());
    assert!(validate_branch_name("   ").is_err());
}

#[test]
fn test_validate_branch_name_rejects_leading_dash() {
    assert!(validate_branch_name("-branch").is_err());
}

#[test]
fn test_generate_worktree_path() {
    let p = generate_worktree_path("/home/user/myproject", "feature/new-function");
    assert_eq!(p, "/home/user/myproject/feature-new-function");
}

#[test]
fn test_generate_worktree_path_replaces_special_chars() {
    let p = generate_worktree_path("/home/user/myproject", "feature/new_function");
    assert_eq!(p, "/home/user/myproject/feature-new_function");
}

#[test]
fn test_generate_worktree_path_nested_branch() {
    let p = generate_worktree_path("/home/user/myproject", "user/john/feature/awesome");
    assert_eq!(p, "/home/user/myproject/user-john-feature-awesome");
}

#[test]
fn worktree_path_with_trailing_slash_in_repo() {
    assert_eq!(generate_worktree_path("/repo/", "a/b"), "/repo/a-b");
}

#[test]
fn test_generate_unique_tmux_session_name() {
    let session_name = generate_unique_tmux_session_name("/home/user/myproject/feature-test");
    assert!(!session_name.is_empty());
    assert!(session_name.len() > 10);
}

#[test]
fn session_name_at_fixed_time() {
    assert_eq!(tmux_session_name_at("abc", 255), "pmux-126-ff");
    assert_ne!(tmux_session_name_at("abc", 1), tmux_session_name_at("abc", 2));
}

#[test]
fn test_new_branch_dialog_initial_state() {
    let dialog = NewBranchDialog::new();
    assert!(!dialog.is_open());
    assert!(!dialog.is_creating());
    assert_eq!(dialog.branch_name(), "");
    assert!(!dialog.has_error());
}

#[test]
fn test_new_branch_dialog_open() {
    let mut dialog = NewBranchDialog::new();
    dialog.open();
    assert!(dialog.is_open());
    assert!(!dialog.is_creating());
}

#[test]
fn test_new_branch_dialog_close() {
    let mut dialog = NewBranchDialog::new();
    dialog.open();
    dialog.close();
    assert!(!dialog.is_open());
    assert!(!dialog.is_creating());
    assert_eq!(dialog.branch_name(), "");
}

#[test]
fn test_new_branch_dialog_clears_state_on_close() {
    let mut dialog = NewBranchDialog::new();
    dialog.open();
    dialog.set_branch_name("feature/test");
    dialog.set_error("Some error");
    dialog.close();
    assert_eq!(dialog.branch_name(), "");
    assert!(!dialog.has_error());
}

#[test]
fn test_new_branch_dialog_validates_branch_name() {
    let mut dialog = NewBranchDialog::new();
    dialog.open();
    dialog.set_branch_name("feature/test");
    dialog.validate();
    assert!(!dialog.has_error());
    assert!(dialog.is_create_enabled());
}

#[test]
fn test_new_branch_dialog_rejects_branch_with_spaces() {
    let mut dialog = NewBranchDialog::new();
    dialog.open();
    dialog.set_branch_name("feature test");
    dialog.validate();
    assert!(dialog.has_error());
    assert!(!dialog.is_create_enabled());
    assert!(dialog.error_message().contains("space"));
}

#[test]
fn test_new_branch_dialog_enter_creating_state() {
    let mut dialog = NewBranchDialog::new();
    dialog.open();
    dialog.set_branch_name("feature/test");
    dialog.start_creating();
    assert!(dialog.is_open());
    assert!(dialog.is_creating());
    assert!(!dialog.is_create_enabled());
}

#[test]
fn test_new_branch_dialog_cannot_close_while_creating() {
    let mut dialog = NewBranchDialog::new();
    dialog.open();
    dialog.start_creating();
    dialog.close();
    assert!(dialog.is_open());
}

#[test]
fn test_new_branch_dialog_exits_creating_on_error() {
    let mut dialog = NewBranchDialog::new();
    dialog.open();
    dialog.start_creating();
    dialog.set_error("Failed to create");
    assert!(!dialog.is_creating());
    assert!(dialog.has_error());
}

#[test]
fn dialog_closes_after_successful_creation() {
    let mut dialog = NewBranchDialog::new();
    dialog.open();
    dialog.set_branch_name("feature/x");
    dialog.start_creating();
    dialog.complete_creating(true);
    assert!(!dialog.is_open());
    assert!(!dialog.is_creating());
}

#[test]
fn test_resizable_sidebar_default() {
    let sidebar = ResizableSidebar::new();
    assert!(!sidebar.is_collapsed);
    assert_eq!(sidebar.sidebar_width(), 250);
    assert!(!sidebar.is_dragging());
    assert!(!sidebar.is_hovering());
}

#[test]
fn test_is_on_resize_border() {
    let sidebar = ResizableSidebar::with_layout(LayoutConfig::with_values(250, 1200, 800, 0, 0));
    assert!(sidebar.is_on_resize_border(250));
    assert!(sidebar.is_on_resize_border(248));
    assert!(sidebar.is_on_resize_border(252));
    assert!(!sidebar.is_on_resize_border(240));
    assert!(!sidebar.is_on_resize_border(260));
}

#[test]
fn test_is_on_resize_border_when_collapsed() {
    let mut sidebar = ResizableSidebar::new();
    sidebar.toggle_sidebar();
    assert!(!sidebar.is_on_resize_border(0));
    assert!(!sidebar.is_on_resize_border(10));
}

#[test]
fn test_drag_operations() {
    let mut sidebar = ResizableSidebar::with_layout(LayoutConfig::with_values(250, 1200, 800, 0, 0));
    sidebar.start_drag(250);
    assert!(sidebar.is_dragging());
    sidebar.update_drag(300);
    assert_eq!(sidebar.sidebar_width(), 300);
    sidebar.end_drag();
    assert!(!sidebar.is_dragging());
}

#[test]
fn test_drag_left_decreases_width() {
    let mut sidebar = ResizableSidebar::with_layout(LayoutConfig::with_values(300, 1200, 800, 0, 0));
    sidebar.start_drag(300);
    sidebar.update_drag(250);
    assert_eq!(sidebar.sidebar_width(), 250);
}

#[test]
fn test_drag_respects_min_max_constraints() {
    let mut sidebar = ResizableSidebar::with_layout(LayoutConfig::with_values(250, 1200, 800, 0, 0));
    sidebar.start_drag(250);
    sidebar.update_drag(1000);
    assert_eq!(sidebar.sidebar_width(), LayoutConfig::MAX_SIDEBAR_WIDTH);
    sidebar.layout.set_sidebar_width(250);
    sidebar.start_drag(250);
    sidebar.update_drag(0);
    assert_eq!(sidebar.sidebar_width(), LayoutConfig::MIN_SIDEBAR_WIDTH);
}

#[test]
fn resizable_sidebar_test_toggle_sidebar() {
    let mut sidebar = ResizableSidebar::new();
    assert!(!sidebar.is_collapsed);
    assert_eq!(sidebar.sidebar_width(), 250);
    sidebar.toggle_sidebar();
    assert!(sidebar.is_collapsed);
    assert_eq!(sidebar.sidebar_width(), 0);
    assert_eq!(sidebar.width_before_collapse, Some(250));
    sidebar.toggle_sidebar();
    assert!(!sidebar.is_collapsed);
    assert_eq!(sidebar.sidebar_width(), 250);
}

#[test]
fn test_toggle_sidebar_restores_different_widths() {
    let mut sidebar = ResizableSidebar::with_layout(LayoutConfig::with_values(350, 1200, 800, 0, 0));
    sidebar.toggle_sidebar();
    sidebar.toggle_sidebar();
    assert_eq!(sidebar.sidebar_width(), 350);
}

#[test]
fn test_double_click_toggles() {
    let mut sidebar = ResizableSidebar::new();
    sidebar.on_double_click();
    assert!(sidebar.is_collapsed);
    sidebar.on_double_click();
    assert!(!sidebar.is_collapsed);
}

#[test]
fn test_hover_state() {
    let mut sidebar = ResizableSidebar::new();
    assert!(!sidebar.is_hovering());
    sidebar.set_hovering(true);
    assert!(sidebar.is_hovering());
    sidebar.set_hovering(false);
    assert!(!sidebar.is_hovering());
}

#[test]
fn test_cursor_style() {
    let mut sidebar = ResizableSidebar::new();
    assert_eq!(sidebar.cursor_style(), "default");
    sidebar.set_hovering(true);
    assert_eq!(sidebar.cursor_style(), "col-resize");
    sidebar.set_hovering(false);
    assert_eq!(sidebar.cursor_style(), "default");
    sidebar.start_drag(250);
    assert_eq!(sidebar.cursor_style(), "col-resize");
}

#[test]
fn resizable_sidebar_test_terminal_view_width() {
    let sidebar = ResizableSidebar::with_layout(LayoutConfig::with_values(250, 1200, 800, 0, 0));
    assert_eq!(sidebar.terminal_view_width(), 950);
}

#[test]
fn test_terminal_view_width_when_collapsed() {
    let mut sidebar = ResizableSidebar::with_layout(LayoutConfig::with_values(250, 1200, 800, 0, 0));
    sidebar.toggle_sidebar();
    assert_eq!(sidebar.terminal_view_width(), 1200);
}
