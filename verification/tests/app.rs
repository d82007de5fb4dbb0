use pmux::app::App;
use pmux::app_state::{AppState, MAX_RECENT_WORKSPACES};
use pmux::config::Config;
use pmux::git_utils::{
    get_git_error_message, is_git_repository_from, is_gitdir_file, validate_git_repository_from,
    GitError,
};

#[test]
fn test_app_initializes() {
    let app = App::from_config(Config::default());
    let _ = app.has_workspace();
}

#[test]
fn test_has_workspace_reflects_state() {
    let mut app = App::from_config(Config::default());
    app.reset_workspace();
    assert!(!app.has_workspace());
}

#[test]
fn test_error_handling() {
    let mut app = App::from_config(Config::default());
    assert!(app.get_error().is_none());
    app.error_message = Some("Test error".to_string());
    assert!(app.get_error().is_some());
    app.clear_error();
    assert!(app.get_error().is_none());
}

#[test]
fn app_opens_saved_repository() {
    let mut config = Config::default();
    config.save_workspace("/home/user/repo");
    let app = App::from_config(config);
    assert!(app.has_workspace());
    assert_eq!(app.get_workspace(), Some(&"/home/user/repo".to_string()));
}

#[test]
fn app_refuses_selection_that_is_not_a_repository() {
    let mut app = App::from_config(Config::default());
    let opened = app.apply_selected_workspace(Some("/tmp/plain"), false);
    assert!(!opened);
    assert!(!app.has_workspace());
    assert!(app.get_error().is_some());
    let opened = app.apply_selected_workspace(Some("/tmp/repo"), true);
    assert!(opened);
    assert_eq!(app.get_workspace(), Some(&"/tmp/repo".to_string()));
    assert!(app.get_error().is_none());
}

#[test]
fn test_app_state_default() {
    let state = AppState::default();
    assert_eq!(state.sidebar_width, 250);
    assert_eq!(state.active_workspace_index, 0);
    assert!(state.recent_workspaces.is_empty());
    assert!(state.workspace_path.is_none());
    assert!(state.error_message.is_none());
}

#[test]
fn test_app_state_with_workspace() {
    let state = AppState::with_workspace("/test/path");
    assert_eq!(state.workspace_path, Some("/test/path".to_string()));
    assert_eq!(state.recent_workspaces.len(), 1);
}

#[test]
fn test_add_recent_workspace() {
    let mut state = AppState::new();
    state.add_recent_workspace("/path1");
    state.add_recent_workspace("/path2");
    state.add_recent_workspace("/path3");
    assert_eq!(state.recent_workspaces.len(), 3);
    assert_eq!(state.recent_workspaces[0], "/path3".to_string());
    state.add_recent_workspace("/path1");
    assert_eq!(state.recent_workspaces.len(), 3);
    assert_eq!(state.recent_workspaces[0], "/path1".to_string());
}

#[test]
fn test_recent_workspaces_limit() {
    let mut state = AppState::new();
    for i in 0..15 {
        state.add_recent_workspace(&format!("/path{}", i));
    }
    assert_eq!(state.recent_workspaces.len(), 10);
    assert_eq!(MAX_RECENT_WORKSPACES, 10);
    assert_eq!(state.recent_workspaces[0], "/path14".to_string());
    assert_eq!(state.recent_workspaces[9], "/path5".to_string());
}

#[test]
fn test_update_window_state() {
    let mut state = AppState::new();
    state.update_window_size(1920, 1080);
    assert_eq!(state.window_state.size, (1920, 1080));
    state.update_window_position(100, 200);
    assert_eq!(state.window_state.position, (100, 200));
    state.set_maximized(true);
    assert!(state.window_state.maximized);
}

#[test]
fn test_set_sidebar_width_clamped() {
    let mut state = AppState::new();
    state.set_sidebar_width(150);
    assert_eq!(state.sidebar_width, 200);
    state.set_sidebar_width(500);
    assert_eq!(state.sidebar_width, 400);
    state.set_sidebar_width(300);
    assert_eq!(state.sidebar_width, 300);
}

#[test]
fn test_should_auto_save() {
    let state = AppState::new();
    assert!(state.should_auto_save());
}

#[test]
fn auto_save_waits_over_thirty_seconds_after_a_save() {
    let mut state = AppState::new();
    state.mark_saved_at(1_000);
    assert!(!state.should_auto_save_at(1_000 + 30_999));
    assert!(state.should_auto_save_at(1_000 + 31_000));
}

#[test]
fn test_config_migrate_from_legacy() {
    let mut config = Config {
        recent_workspace: Some("/home/user/project".to_string()),
        workspace_paths: vec![],
        active_workspace_index: 0,
        per_repo_worktree_index: Vec::new(),
        ..Default::default()
    };
    config.migrate_from_legacy();
    assert_eq!(config.workspace_paths, vec!["/home/user/project".to_string()]);
    assert_eq!(config.active_workspace_index, 0);
}

#[test]
fn config_unknown_backend_falls_back_to_local() {
    let mut config = Config { backend: "docker".to_string(), ..Default::default() };
    assert!(config.normalize_loaded());
    assert_eq!(config.backend, "local");
    let mut config = Config { backend: "tmux".to_string(), ..Default::default() };
    assert!(!config.normalize_loaded());
    assert_eq!(config.backend, "tmux");
}

#[test]
fn config_multi_workspace_round_trip_in_memory() {
    let mut config = Config::default();
    let paths = vec!["/path/repo1".to_string(), "/path/repo2".to_string()];
    let per_repo = vec![("/path/repo1".to_string(), 1usize), ("/path/repo2".to_string(), 0usize)];
    config.save_workspaces(&paths, 1, &per_repo);
    assert_eq!(config.workspace_paths.len(), 2);
    assert_eq!(config.active_workspace_index, 1);
    assert_eq!(config.worktree_index_for("/path/repo1"), Some(1));
    assert_eq!(config.worktree_index_for("/path/repo2"), Some(0));
    assert_eq!(config.worktree_index_for("/path/repo3"), None);
    assert_eq!(config.get_recent_workspace(), Some("/path/repo1".to_string()));
}

#[test]
fn config_save_workspace_puts_it_first() {
    let mut config = Config::default();
    config.save_workspace("/a");
    config.save_workspace("/b");
    assert_eq!(config.get_recent_workspace(), Some("/b".to_string()));
    assert_eq!(config.recent_workspace, Some("/b".to_string()));
}

#[test]
fn test_error_message_is_user_friendly() {
    let error = GitError::NotARepository;
    let message = get_git_error_message("/some/path", &error);
    assert!(message.contains("不是 Git 仓库"));
    assert!(message.contains(".git"));
    assert!(message.contains("/some/path"));
}

#[test]
fn git_repository_detection_from_disk_facts() {
    assert!(is_git_repository_from(true, true, None));
    assert!(!is_git_repository_from(true, false, None));
    assert!(!is_git_repository_from(false, true, None));
    assert!(is_git_repository_from(true, false, Some("gitdir: /path/to/bare/repo.git\n")));
    assert!(!is_git_repository_from(true, false, Some("This is just a regular file\n")));
    assert!(is_gitdir_file("  gitdir: x"));
    assert!(!is_gitdir_file("git dir"));
}

#[test]
fn git_validation_errors() {
    assert!(validate_git_repository_from(true, true).is_ok());
    assert!(matches!(validate_git_repository_from(true, false), Err(GitError::NotARepository)));
    match validate_git_repository_from(false, false) {
        Err(GitError::Io(m)) => assert_eq!(m, "Path does not exist"),
        _ => panic!("expected an I/O error"),
    }
    let m = get_git_error_message("/x", &GitError::Io("denied".to_string()));
    assert_eq!(m, "无法访问路径 '/x': denied");
}
