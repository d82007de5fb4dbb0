use pmux::empty_state::{EmptyState, EmptyStateConfig, EmptyStateRenderer, EmptyStateType};
use pmux::help_panel::{HelpPanel, HelpPanelRenderer};
use pmux::keyboard_shortcuts::{KeyBinding, ShortcutAction, ShortcutCategory, ShortcutRegistry};

#[test]
fn test_no_workspace_selected() {
    let state = EmptyState::no_workspace_selected();
    assert_eq!(state.state_type, EmptyStateType::NoWorkspaceSelected);
    assert_eq!(state.icon, "📂");
    assert_eq!(state.title, "No Workspace Selected");
    assert_eq!(state.cta_text, Some("Open Workspace"));
    assert!(state.has_cta());
}

#[test]
fn test_no_notifications() {
    let state = EmptyState::no_notifications();
    assert_eq!(state.state_type, EmptyStateType::NoNotifications);
    assert_eq!(state.icon, "🔕");
    assert_eq!(state.title, "No Notifications");
    assert!(!state.has_cta());
}

#[test]
fn test_empty_worktree_list() {
    let state = EmptyState::empty_worktree_list();
    assert_eq!(state.state_type, EmptyStateType::EmptyWorktreeList);
    assert_eq!(state.icon, "🌳");
    assert_eq!(state.title, "No Worktrees Yet");
    assert_eq!(state.cta_text, Some("New Branch (⌘⇧N)"));
    assert!(state.has_cta());
}

#[test]
fn test_no_results() {
    let state = EmptyState::no_results();
    assert_eq!(state.state_type, EmptyStateType::NoResults);
    assert_eq!(state.icon, "🔍");
    assert_eq!(state.title, "No Results Found");
    assert!(state.has_cta());
}

#[test]
fn test_loading() {
    let state = EmptyState::loading();
    assert_eq!(state.state_type, EmptyStateType::Loading);
    assert_eq!(state.icon, "⏳");
    assert_eq!(state.title, "Loading...");
    assert!(!state.has_cta());
}

#[test]
fn test_error() {
    let state = EmptyState::error("Connection failed");
    assert_eq!(state.state_type, EmptyStateType::Error);
    assert_eq!(state.icon, "⚠️");
    assert_eq!(state.title, "Something Went Wrong");
    assert_eq!(state.description, "Connection failed");
    assert!(state.has_cta());
}

#[test]
fn test_render() {
    let state = EmptyState::no_workspace_selected();
    let rendered = EmptyStateRenderer::render(&state);
    assert!(rendered.contains("📂"));
    assert!(rendered.contains("No Workspace Selected"));
    assert!(rendered.contains("Open Workspace"));
}

#[test]
fn test_render_compact() {
    let state = EmptyState::no_notifications();
    let rendered = EmptyStateRenderer::render_compact(&state);
    assert_eq!(rendered, "🔕 No Notifications");
}

#[test]
fn test_style_class() {
    let state = EmptyState::no_workspace_selected();
    assert_eq!(state.style_class(), "empty-state-illustrated");
}

#[test]
fn test_config_default() {
    let config = EmptyStateConfig::default();
    assert!(config.show_icon);
    assert!(config.show_title);
    assert!(config.show_description);
    assert!(config.show_cta);
}

#[test]
fn test_help_panel_toggle() {
    let mut panel = HelpPanel::new();
    assert!(!panel.is_open());
    panel.toggle();
    assert!(panel.is_open());
    panel.toggle();
    assert!(!panel.is_open());
}

#[test]
fn test_help_panel_open_close() {
    let mut panel = HelpPanel::new();
    panel.open();
    assert!(panel.is_open());
    panel.close();
    assert!(!panel.is_open());
}

#[test]
fn test_category_filtering() {
    let mut panel = HelpPanel::new();
    panel.open();
    panel.select_category(Some(ShortcutCategory::General));
    let filtered = panel.filtered_bindings();
    assert!(filtered.iter().all(|b| b.category == ShortcutCategory::General));
}

#[test]
fn test_combined_filters() {
    let mut panel = HelpPanel::new();
    panel.open();
    panel.select_category(Some(ShortcutCategory::Workspace));
    panel.set_search("toggle");
    let filtered = panel.filtered_bindings();
    assert!(filtered.iter().all(|b| b.category == ShortcutCategory::Workspace));
    assert!(filtered.iter().all(|b| b.name.to_lowercase().contains("toggle")));
}

#[test]
fn test_bindings_by_category() {
    let mut panel = HelpPanel::new();
    panel.open();
    let by_cat = panel.bindings_by_category();
    assert!(!by_cat.is_empty());
    for (_, bindings) in &by_cat {
        assert!(!bindings.is_empty());
    }
}

#[test]
fn test_handle_escape() {
    let mut panel = HelpPanel::new();
    panel.open();
    assert!(panel.is_open());
    let handled = panel.handle_escape();
    assert!(handled);
    assert!(!panel.is_open());
    let handled = panel.handle_escape();
    assert!(!handled);
}

#[test]
fn test_clear_search() {
    let mut panel = HelpPanel::new();
    panel.open();
    panel.set_search("test query");
    assert_eq!(panel.search_query(), Some("test query"));
    panel.clear_search();
    assert_eq!(panel.search_query(), Some(""));
}

#[test]
fn test_render_not_empty_when_open() {
    let mut panel = HelpPanel::new();
    panel.open();
    let rendered = HelpPanelRenderer::render(&panel);
    assert!(!rendered.is_empty());
    assert!(rendered.contains("Keyboard Shortcuts"));
}

#[test]
fn test_render_empty_when_closed() {
    let panel = HelpPanel::new();
    let rendered = HelpPanelRenderer::render(&panel);
    assert!(rendered.is_empty());
}

#[test]
fn test_help_panel_default() {
    let panel = HelpPanel::new();
    assert!(!panel.is_open());
    assert_eq!(panel.all_bindings.len(), 10); // Default bindings count
}

#[test]
fn test_search_filtering() {
    let mut panel = HelpPanel::new();
    panel.open();

    // Without search, should return all bindings
    let all = panel.filtered_bindings();
    assert_eq!(all.len(), 10);

    // Search for "new"
    panel.set_search("new");
    let filtered = panel.filtered_bindings();
    assert!(filtered.iter().any(|b| b.action == ShortcutAction::NewWorkspace));
    assert!(filtered.iter().any(|b| b.action == ShortcutAction::NewBranch));
}

#[test]
fn test_new_panel_lists_first_ten_defaults() {
    let panel = HelpPanel::new();
    let defaults = KeyBinding::all_defaults();
    assert_eq!(defaults.len(), 22);
    for (b, d) in panel.all_bindings.iter().zip(defaults.iter()) {
        assert_eq!(b.action, d.action);
    }
    assert_eq!(panel.all_bindings[9].action, ShortcutAction::SwitchTab4);
}

#[test]
fn closed_panel_ignores_search() {
    let mut panel = HelpPanel::new();
    panel.set_search("x");
    assert_eq!(panel.search_query(), None);
}

#[test]
fn test_key_binding_creation() {
    let binding = KeyBinding::new(
        ShortcutAction::NewWorkspace,
        "Test",
        "⌘T",
        "Test description",
        ShortcutCategory::General,
    );
    assert_eq!(binding.name, "Test");
    assert_eq!(binding.shortcut, "⌘T");
    assert_eq!(binding.category, ShortcutCategory::General);
}

#[test]
fn test_default_bindings_count() {
    let bindings = KeyBinding::all_defaults();
    assert_eq!(bindings.len(), 22);
}

#[test]
fn test_shortcut_registry_new() {
    let registry = ShortcutRegistry::new();
    assert!(!registry.all_bindings().is_empty());
}

#[test]
fn test_shortcut_lookup() {
    let registry = ShortcutRegistry::new();
    assert_eq!(registry.lookup("⌘N"), Some(ShortcutAction::NewWorkspace));
    assert_eq!(registry.lookup("⌘B"), Some(ShortcutAction::ToggleSidebar));
}

#[test]
fn test_get_binding() {
    let registry = ShortcutRegistry::new();
    let binding = registry.get_binding(ShortcutAction::NewWorkspace);
    assert!(binding.is_some());
    assert_eq!(binding.unwrap().shortcut, "⌘N");
}

#[test]
fn test_is_registered() {
    let registry = ShortcutRegistry::new();
    assert!(registry.is_registered("⌘N"));
    assert!(!registry.is_registered("⌘X"));
}

#[test]
fn test_check_conflict_existing() {
    let registry = ShortcutRegistry::new();
    let conflict = registry.check_conflict("⌘N");
    assert_eq!(conflict, Some(ShortcutAction::NewWorkspace));
}

#[test]
fn test_check_conflict_none() {
    let registry = ShortcutRegistry::new();
    let conflict = registry.check_conflict("⌘X");
    assert_eq!(conflict, None);
}

#[test]
fn test_update_shortcut_success() {
    let mut registry = ShortcutRegistry::new();
    assert!(registry.update_shortcut(ShortcutAction::NewWorkspace, "⌘X").is_ok());
    assert_eq!(registry.lookup("⌘X"), Some(ShortcutAction::NewWorkspace));
    assert!(!registry.is_registered("⌘N"));
}

#[test]
fn test_update_shortcut_conflict() {
    let mut registry = ShortcutRegistry::new();
    let result = registry.update_shortcut(ShortcutAction::NewWorkspace, "⌘B");
    assert!(result.is_err());
    assert_eq!(registry.lookup("⌘N"), Some(ShortcutAction::NewWorkspace));
}

#[test]
fn test_unregister() {
    let mut registry = ShortcutRegistry::new();
    registry.unregister(ShortcutAction::NewWorkspace);
    assert!(!registry.is_registered("⌘N"));
    assert_eq!(registry.lookup("⌘N"), None);
}

#[test]
fn test_category_variants() {
    let cats = vec![
        ShortcutCategory::General,
        ShortcutCategory::Navigation,
        ShortcutCategory::Workspace,
        ShortcutCategory::View,
    ];
    assert_eq!(cats.len(), 4);
}

#[test]
fn test_action_variants() {
    let actions = vec![
        ShortcutAction::NewWorkspace,
        ShortcutAction::ToggleSidebar,
        ShortcutAction::SwitchTab1,
        ShortcutAction::VerticalSplit,
        ShortcutAction::ZoomIn,
    ];
    assert_eq!(actions.len(), 5);
}
